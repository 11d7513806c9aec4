//! The evaluator: a machine that walks the syntax tree one step at a time
//! and hands every effect to its host.

use crate::ast::{call_view, function_view, block_view, Expr, Statement};
use crate::environment::{values_view, values_view_push, EnvError, Environment, ScopeView};
use crate::errors::{ErrorDetails, ErrorType};
use crate::machine::{frames_view, transition, Action, Control, Event, Frame, Then};
use crate::number::{negate, number_equal, number_less, repetitions, ZERO};
use crate::semantics;
use crate::semantics::{MachineView, Operation};
use crate::text::{names_view, push_decimal_nat, repeat, split_words};
use crate::token::{Kind, Token};
use crate::value::{
    pieces_view, Native, Piece, Value, ValueView,
};
use vstd::prelude::*;

verus! {

/// A message that is one known text.
fn plain(text: String) -> (r: Vec<Piece>)
    ensures
        pieces_view(r@) == semantics::plain(text@),
{
    let mut pieces: Vec<Piece> = Vec::new();
    pieces.push(Piece::Text(text));
    assert(pieces_view(pieces@) =~= semantics::plain(text@));
    pieces
}

/// A message around one value.
fn around<'a>(before: String, value: &Value<'a>, after: &str) -> (r: Vec<Piece>)
    ensures
        pieces_view(r@) == semantics::around(before@, value@, after@),
{
    let mut pieces: Vec<Piece> = Vec::new();
    pieces.push(Piece::Text(before));
    pieces.push(value.shown());
    pieces.push(Piece::Text(after.to_string()));
    assert(pieces_view(pieces@) =~= semantics::around(before@, value@, after@));
    pieces
}

/// A message around two values.
fn around_two<'a>(
    before: String,
    first: &Value<'a>,
    between: &str,
    second: &Value<'a>,
    after: &str,
) -> (r: Vec<Piece>)
    ensures
        pieces_view(r@) == semantics::around_two(before@, first@, between@, second@, after@),
{
    let mut pieces: Vec<Piece> = Vec::new();
    pieces.push(Piece::Text(before));
    pieces.push(first.shown());
    pieces.push(Piece::Text(between.to_string()));
    pieces.push(second.shown());
    pieces.push(Piece::Text(after.to_string()));
    assert(pieces_view(pieces@) =~= semantics::around_two(
        before@,
        first@,
        between@,
        second@,
        after@,
    ));
    pieces
}

/// The one piece that shows a value.
fn showing<'a>(value: &Value<'a>) -> (r: Vec<Piece>)
    ensures
        pieces_view(r@) == seq![value@.shown()],
{
    let mut pieces: Vec<Piece> = Vec::new();
    pieces.push(value.shown());
    assert(pieces_view(pieces@) =~= seq![value@.shown()]);
    pieces
}

/// `prefix`, then `middle`, then `suffix`.
fn framed(prefix: &str, middle: &str, suffix: &str) -> (r: String)
    ensures
        r@ == prefix@ + middle@ + suffix@,
{
    let mut out = prefix.to_string();
    out.append(middle);
    out.append(suffix);
    out
}

/// The global scope that a new interpreter starts with: the functions of the host.
pub open spec fn globals() -> Seq<ScopeView> {
    let empty = seq![ScopeView { map: Map::empty(), function: false }];
    let unnamed = seq![Seq::<char>::empty()];
    let with_out = crate::environment::bound(
        empty,
        0,
        "out"@,
        ValueView::NativeFunction { name: "out"@, args: unnamed, body: Native::Out },
    );
    let with_ask = crate::environment::bound(
        with_out,
        0,
        "ask"@,
        ValueView::NativeFunction { name: "ask"@, args: unnamed, body: Native::Ask },
    );
    let with_size = crate::environment::bound(
        with_ask,
        0,
        "size"@,
        ValueView::NativeFunction { name: "size"@, args: unnamed, body: Native::Size },
    );
    let with_time = crate::environment::bound(
        with_size,
        0,
        "time"@,
        ValueView::NativeFunction { name: "time"@, args: Seq::empty(), body: Native::Time },
    );
    crate::environment::bound(
        with_time,
        0,
        "cmd"@,
        ValueView::NativeFunction { name: "cmd"@, args: unnamed, body: Native::Cmd },
    )
}

/// Every name of the global scope is bound to a function of the host.
pub proof fn globals_are_typed()
    ensures
        globals().len() == 1,
        crate::environment::typed(globals()),
        crate::guarantees::scopes_are_sound(globals()),
{
    let scopes = globals();
    assert forall|j: int, name: Seq<char>|
        0 <= j < scopes.len() && (#[trigger] scopes[j].map.dom().contains(name)) implies !(
    scopes[j].map[name] is Empty) && crate::guarantees::value_is_sound(scopes[j].map[name]) by {}
}

/// The evaluator.
pub struct Interpreter<'a> {
    environment: Environment<'a>,
    stack: Vec<Frame<'a>>,
    control: Control<'a>,
}

impl<'a> View for Interpreter<'a> {
    type V = MachineView;

    closed spec fn view(&self) -> MachineView {
        MachineView {
            control: self.control@,
            stack: frames_view(self.stack@),
            scopes: self.environment@,
        }
    }
}

impl<'a> Default for Interpreter<'a> {
    fn default() -> (r: Self)
        ensures
            r.well_formed(),
            r@ == (MachineView {
                control: semantics::ControlView::Idle,
                stack: Seq::empty(),
                scopes: globals(),
            }),
    {
        Self::new()
    }
}

fn unnamed() -> (r: Vec<String>)
    ensures
        names_view(r@) == seq![Seq::<char>::empty()],
{
    let mut args: Vec<String> = Vec::new();
    args.push(String::new());
    assert(names_view(args@) =~= seq![Seq::<char>::empty()]);
    args
}

impl<'a> Interpreter<'a> {
    /// The evaluator's invariant: its environment is well formed.
    pub closed spec fn well_formed(&self) -> bool {
        self.environment.well_formed()
    }

    /// An evaluator with the functions of the host in its global scope and no program loaded.
    pub fn new() -> (r: Self)
        ensures
            r.well_formed(),
            r@ == (MachineView {
                control: semantics::ControlView::Idle,
                stack: Seq::empty(),
                scopes: globals(),
            }),
            crate::guarantees::consistent(r@),
    {
        let mut env = Environment::new();
        env.define_native_function("out", unnamed(), Native::Out);
        env.define_native_function("ask", unnamed(), Native::Ask);
        env.define_native_function("size", unnamed(), Native::Size);
        let none: Vec<String> = Vec::new();
        assert(names_view(none@) =~= Seq::empty());
        env.define_native_function("time", none, Native::Time);
        env.define_native_function("cmd", unnamed(), Native::Cmd);
        let r = Interpreter { environment: env, stack: Vec::new(), control: Control::Idle };
        assert(frames_view(r.stack@) =~= Seq::empty());
        assert(crate::guarantees::scopes_of(Seq::<semantics::FrameView>::empty()) == 0);
        proof {
            globals_are_typed();
        }
        r
    }

    /// Starts the evaluation of a program.
    ///
    /// The program is loaded, and the machine runs until it has something
    /// for its host: that the evaluation is complete (`Action::Finished`,
    /// with the last value as text) or has failed (`Action::Failed`), that
    /// the steps allowed for this call are used up (`Action::Paused`: at
    /// most `budget` after the first), or that something is to be done. The
    /// host does what is asked and calls [`Interpreter::resume`] with what
    /// came of it.
    ///
    /// A program that a parse has yielded keeps the machine consistent.
    pub fn interpret(&mut self, statements: &'a Vec<Statement>, budget: usize) -> (r: Action)
        requires
            old(self).well_formed(),
        ensures
            final(self).well_formed(),
            transition(final(self)@, Some(r)) == semantics::run(
                semantics::loaded(old(self)@, crate::ast::statements_view(statements@)),
                semantics::EventView::Resume,
                budget as nat,
            ),
            crate::guarantees::consistent(old(self)@) && crate::ast::all_well_formed(
                crate::ast::statements_view(statements@),
            ) ==> crate::guarantees::consistent(final(self)@),
    {
        proof {
            if crate::guarantees::consistent(self@) && crate::ast::all_well_formed(
                crate::ast::statements_view(statements@),
            ) {
                crate::guarantees::loading_keeps_consistency(
                    self@,
                    crate::ast::statements_view(statements@),
                );
            }
        }
        self.halt();
        self.stack.push(Frame::Program { statements, next: 0 });
        self.control = Control::Deliver(Value::Empty);
        assert(frames_view(self.stack@) =~= seq![
            semantics::FrameView::Program {
                statements: crate::ast::statements_view(statements@),
                next: 0,
            },
        ]);
        self.resume(Event::Resume, budget)
    }

    /// Goes on with the evaluation: takes the host's reply to the last
    /// action and runs until the machine has something for its host
    /// again, for at most `budget` steps after the first.
    pub fn resume(&mut self, event: Event, budget: usize) -> (r: Action)
        requires
            old(self).well_formed(),
        ensures
            final(self).well_formed(),
            transition(final(self)@, Some(r)) == semantics::run(
                old(self)@,
                event@,
                budget as nat,
            ),
            crate::guarantees::consistent(old(self)@) ==> crate::guarantees::consistent(final(self)@),
    {
        proof {
            if crate::guarantees::consistent(self@) {
                crate::guarantees::run_keeps_consistency(self@, event@, budget as nat);
            }
        }
        let ghost target = semantics::run(self@, event@, budget as nat);
        let mut left = budget;
        let mut outcome = self.step(event);
        while outcome.is_none() && left > 0
            invariant
                self.well_formed(),
                outcome is Some ==> transition(self@, outcome) == target,
                outcome is None ==> target == (if left == 0 {
                    semantics::Transition {
                        machine: self@,
                        action: Some(semantics::ActionView::Paused),
                    }
                } else {
                    semantics::run(self@, semantics::EventView::Resume, (left - 1) as nat)
                }),
            decreases left,
        {
            left -= 1;
            outcome = self.step(Event::Resume);
        }
        match outcome {
            Some(action) => action,
            None => Action::Paused,
        }
    }

    /// The machine goes on by itself, with `control`.
    fn go(&mut self, control: Control<'a>) -> (r: Option<Action>)
        requires
            old(self).well_formed(),
        ensures
            final(self).well_formed(),
            transition(final(self)@, r) == semantics::go(old(self)@, control@),
    {
        self.control = control;
        None
    }

    /// The machine waits with `control` for the host's reply to `action`.
    fn ask(&mut self, control: Control<'a>, action: Action) -> (r: Option<Action>)
        requires
            old(self).well_formed(),
        ensures
            final(self).well_formed(),
            transition(final(self)@, r) == semantics::ask(old(self)@, control@, action@),
    {
        self.control = control;
        Some(action)
    }

    /// One more frame.
    fn push(&mut self, frame: Frame<'a>)
        requires
            old(self).well_formed(),
        ensures
            final(self).well_formed(),
            final(self)@ == semantics::pushed(old(self)@, frame@),
    {
        assert(frames_view(self.stack@.push(frame)) =~= frames_view(self.stack@).push(frame@));
        self.stack.push(frame);
    }

    /// The top frame, taken off the stack.
    fn pop(&mut self) -> (r: Option<Frame<'a>>)
        requires
            old(self).well_formed(),
        ensures
            final(self).well_formed(),
            match r {
                Some(frame) => old(self)@.stack.len() > 0 && frame@ == old(self)@.stack.last()
                    && final(self)@ == semantics::popped(old(self)@),
                None => old(self)@.stack.len() == 0 && final(self)@ == old(self)@,
            },
    {
        if self.stack.len() > 0 {
            assert(frames_view(self.stack@.drop_last()) =~= frames_view(self.stack@).drop_last());
        }
        self.stack.pop()
    }

    /// The machine starts to put the message of an error together.
    fn fault(&mut self, error_type: ErrorType, token: &Token, pieces: Vec<Piece>) -> (r: Option<
        Action,
    >)
        requires
            old(self).well_formed(),
        ensures
            final(self).well_formed(),
            transition(final(self)@, r) == semantics::fault(
                old(self)@,
                error_type,
                token@,
                pieces_view(pieces@),
            ),
    {
        self.go(
            Control::Compose {
                done: String::new(),
                rest: pieces,
                then: Then::Fail { error_type, line: token.line(), column: token.column() },
            },
        )
    }

    /// The evaluation ends: nothing is left to do, and only the global scope is left.
    fn halt(&mut self)
        requires
            old(self).well_formed(),
        ensures
            final(self).well_formed(),
            final(self)@ == semantics::halted(old(self)@),
    {
        self.control = Control::Idle;
        self.stack = Vec::new();
        assert(frames_view(self.stack@) =~= Seq::empty());
        proof {
            self.environment.has_global();
        }
        while self.environment.depth() > 1
            invariant
                self.environment.well_formed(),
                self.environment@.len() >= 1,
                self.environment@.take(1) == old(self).environment@.take(1),
                self.control@ == semantics::ControlView::Idle,
                frames_view(self.stack@) == Seq::<semantics::FrameView>::empty(),
            decreases self.environment@.len(),
        {
            let ghost before = self.environment@;
            self.environment.leave_scope();
            assert(before.drop_last().take(1) =~= before.take(1));
        }
        assert(self.environment@.take(1) =~= self.environment@);
    }

    /// One step of the machine.
    pub fn step(&mut self, event: Event) -> (r: Option<Action>)
        requires
            old(self).well_formed(),
        ensures
            final(self).well_formed(),
            transition(final(self)@, r) == semantics::step(old(self)@, event@),
            crate::guarantees::consistent(old(self)@) ==> crate::guarantees::consistent(final(self)@),
    {
        proof {
            if crate::guarantees::consistent(self@) {
                crate::guarantees::step_keeps_consistency(self@, event@);
            }
        }
        let mut control = Control::Idle;
        core::mem::swap(&mut self.control, &mut control);
        match control {
            Control::Idle => Some(Action::Finished(String::new())),
            Control::Execute(statement) => self.execute(statement),
            Control::Evaluate(expr) => self.evaluate(expr),
            Control::Deliver(value) => self.deliver(value),
            Control::Unwind { value, anchor } => self.unwind(value, anchor),
            Control::Compose { done, rest, then } => self.compose(done, rest, then),
            Control::AwaitText { done, rest, then } => match event {
                Event::Text(text) => {
                    let mut done = done;
                    done.append(text.as_str());
                    self.go(Control::Compose { done, rest, then })
                },
                _ => self.refuse(),
            },
            Control::AwaitNumber => match event {
                Event::Number(bits) => self.go(Control::Deliver(Value::Number(bits))),
                _ => self.refuse(),
            },
            Control::AwaitString => match event {
                Event::Text(text) => self.go(Control::Deliver(Value::String(text))),
                _ => self.refuse(),
            },
            Control::AwaitOutput(value) => self.go(Control::Deliver(value)),
        }
    }

    /// The evaluation ends because the host's reply is not of the kind that was asked for.
    fn refuse(&mut self) -> (r: Option<Action>)
        requires
            old(self).well_formed(),
        ensures
            final(self).well_formed(),
            transition(final(self)@, r) == semantics::refuse(old(self)@),
    {
        self.halt();
        Some(
            Action::Failed(
                ErrorDetails::new(
                    ErrorType::RuntimeError,
                    "The host's reply does not answer the request".to_string(),
                    0,
                    0,
                ),
            ),
        )
    }

    /// A text that is put together takes its next piece, or is complete.
    fn compose(&mut self, done: String, rest: Vec<Piece>, then: Then<'a>) -> (r: Option<Action>)
        requires
            old(self).well_formed(),
            old(self)@.control == semantics::ControlView::Idle,
        ensures
            final(self).well_formed(),
            transition(final(self)@, r) == semantics::compose(
                old(self)@,
                done@,
                pieces_view(rest@),
                then@,
            ),
    {
        let mut rest = rest;
        let mut done = done;
        if rest.len() == 0 {
            match then {
                Then::Finish => Some(Action::Finished(done)),
                Then::Output(value) => self.ask(Control::AwaitOutput(value), Action::Output(done)),
                Then::Fail { error_type, line, column } => {
                    self.halt();
                    Some(Action::Failed(ErrorDetails::new(error_type, done, line, column)))
                },
            }
        } else {
            let ghost before = pieces_view(rest@);
            let piece = rest.remove(0);
            assert(pieces_view(rest@) =~= before.skip(1));
            match piece {
                Piece::Text(text) => {
                    done.append(text.as_str());
                    self.go(Control::Compose { done, rest, then })
                },
                Piece::Number(bits) => self.ask(
                    Control::AwaitText { done, rest, then },
                    Action::RenderNumber(bits),
                ),
            }
        }
    }
}

/// The lexemes of a list of tokens.
fn lexemes(tokens: &Vec<Token>) -> (r: Vec<String>)
    ensures
        names_view(r@) == semantics::lexemes(crate::token::tokens_view(tokens@)),
{
    let mut out: Vec<String> = Vec::new();
    let mut i: usize = 0;
    while i < tokens.len()
        invariant
            i <= tokens.len(),
            out.len() == i,
            forall|j: int| 0 <= j < i ==> out@[j]@ == tokens@[j]@.lexeme,
        decreases tokens.len() - i,
    {
        out.push(tokens[i].lexeme().to_string());
        i += 1;
    }
    assert(names_view(out@) =~= semantics::lexemes(crate::token::tokens_view(tokens@)));
    out
}

/// The arithmetic that an operator stands for.
fn operation(kind: Kind) -> (r: Option<Operation>)
    ensures
        r == semantics::operation(kind),
{
    match kind {
        Kind::Plus => Some(Operation::Add),
        Kind::Minus => Some(Operation::Subtract),
        Kind::Star => Some(Operation::Multiply),
        Kind::Slash => Some(Operation::Divide),
        Kind::Percent => Some(Operation::Remainder),
        Kind::Caret => Some(Operation::Power),
        _ => None,
    }
}

/// The name of an operation in a message.
fn operation_name(operation: Operation) -> (r: &'static str)
    ensures
        r@ == semantics::operation_name(operation),
{
    match operation {
        Operation::Add => "Addition",
        Operation::Subtract => "Substraction",
        Operation::Multiply => "Multiplication",
        Operation::Divide => "Division",
        Operation::Remainder => "Modulo",
        Operation::Power => "Exponentiation",
    }
}

/// The message for operands that an operation does not take.
fn operands_message<'a>(
    operator: &Token,
    operation: Operation,
    left: &Value<'a>,
    right: &Value<'a>,
) -> (r: Vec<Piece>)
    ensures
        pieces_view(r@) == semantics::operands_message(operator@, operation, left@, right@),
{
    let mut before = operation_name(operation).to_string();
    before.append(" (`");
    before.append(operator.lexeme());
    before.append("`) can only be performed between two numbers");
    before.append(
        if operation == Operation::Add {
            " or two strings"
        } else if operation == Operation::Multiply {
            " or a string and a number"
        } else {
            ""
        },
    );
    before.append(" (found `");
    around_two(before, left, "` and `", right, "`)")
}

/// The message for a token that stands where an operator belongs.
fn not_an_operator(operator: &Token) -> (r: Vec<Piece>)
    ensures
        pieces_view(r@) == semantics::not_an_operator(operator@),
{
    plain(framed("Token `", operator.lexeme(), "` is no operator"))
}

/// The message for a call with the wrong number of arguments.
fn arity_message(expected: usize, found: usize) -> (r: String)
    ensures
        r@ == semantics::arity_message(expected as nat, found as nat),
{
    let mut out = "Expected ".to_string();
    push_decimal_nat(&mut out, expected as u64);
    out.append(" argument");
    out.append(
        if expected == 1 {
            ""
        } else {
            "s"
        },
    );
    out.append(", but found ");
    push_decimal_nat(&mut out, found as u64);
    out
}

/// The first argument at or after `from` that is the untyped `empty`, if there is one.
fn first_untyped<'a>(values: &Vec<Value<'a>>) -> (r: Option<usize>)
    ensures
        match r {
            Some(i) => semantics::first_untyped(values_view(values@), 0) == Some(i as int) && i
                < values.len(),
            None => semantics::first_untyped(values_view(values@), 0) is None,
        },
{
    let mut i: usize = 0;
    while i < values.len()
        invariant
            i <= values.len(),
            semantics::first_untyped(values_view(values@), i as int) == semantics::first_untyped(
                values_view(values@),
                0,
            ),
        decreases values.len() - i,
    {
        if let Value::Empty = values[i] {
            return Some(i);
        }
        i += 1;
    }
    None
}

/// The value of `left == right`, or of `left != right`.
pub fn evaluate_equality<'a>(left: &Value<'a>, operator: Kind, right: &Value<'a>) -> (r: Value<'a>)
    ensures
        r@ == semantics::evaluate_equality(left@, operator, right@),
{
    let equality = left.equals(right);
    Value::Boolean(
        if operator == Kind::EqualEqual {
            equality
        } else {
            !equality
        },
    )
}

/// Whether a comparison holds between two numbers.
pub fn compares(operator: Kind, left: u64, right: u64) -> (r: bool)
    ensures
        r == semantics::compares(operator, left, right),
{
    match operator {
        Kind::Greater => number_less(right, left),
        Kind::GreaterEqual => number_less(right, left) || number_equal(left, right),
        Kind::Less => number_less(left, right),
        _ => number_less(left, right) || number_equal(left, right),
    }
}

impl<'a> Interpreter<'a> {
    /// A statement starts.
    fn execute(&mut self, statement: &'a Statement) -> (r: Option<Action>)
        requires
            old(self).well_formed(),
        ensures
            final(self).well_formed(),
            transition(final(self)@, r) == semantics::execute(old(self)@, statement@),
    {
        match statement {
            Statement::Expr { expr } => self.go(Control::Evaluate(expr)),
            Statement::Assignment { ident, value } => {
                self.push(Frame::Assign { ident });
                self.go(Control::Evaluate(value))
            },
            Statement::Block { statements } => self.execute_block(statements),
            Statement::If { condition, then, otherwise } => {
                let then: &'a Statement = &**then;
                let otherwise: Option<&'a Statement> = match otherwise {
                    Some(branch) => Some(&**branch),
                    None => None,
                };
                self.push(Frame::If { then, otherwise, anchor: condition.first_token() });
                self.go(Control::Evaluate(condition))
            },
            Statement::While { condition, body } => {
                let body: &'a Statement = &**body;
                self.push(Frame::WhileCondition { condition, body });
                self.go(Control::Evaluate(condition))
            },
            Statement::FunctionDeclaration { ident, params, body } => {
                proof {
                    function_view(*ident, *params, *body);
                }
                self.execute_function_declaration(ident, params, body)
            },
            Statement::Return { expr } => self.execute_return(expr),
        }
    }

    /// A block starts: it gets a scope of its own, which is a function's
    /// scope if the scope around it is one.
    fn execute_block(&mut self, statements: &'a Vec<Statement>) -> (r: Option<Action>)
        requires
            old(self).well_formed(),
        ensures
            final(self).well_formed(),
            transition(final(self)@, r) == semantics::execute(
                old(self)@,
                (Statement::Block { statements: *statements })@,
            ),
    {
        proof {
            block_view(*statements);
        }
        let inherited = self.environment.top_is_function();
        self.environment.enter_scope(inherited);
        self.push(Frame::Block { statements, next: 0, scoped: true });
        self.go(Control::Deliver(Value::Empty))
    }

    /// A function is declared.
    fn execute_function_declaration(
        &mut self,
        ident: &'a Token,
        params: &'a Vec<Token>,
        body: &'a Vec<Statement>,
    ) -> (r: Option<Action>)
        requires
            old(self).well_formed(),
        ensures
            final(self).well_formed(),
            transition(final(self)@, r) == semantics::declare(
                old(self)@,
                ident@,
                crate::token::tokens_view(params@),
                crate::ast::statements_view(body@),
            ),
    {
        if self.environment.get(ident.lexeme()).is_some() {
            return self.fault(
                ErrorType::TypeError,
                ident,
                plain(framed("Identifier `", ident.lexeme(), "` has already been declared")),
            );
        }
        let function = Value::Function {
            name: ident.lexeme().to_string(),
            args: lexemes(params),
            body,
        };
        let defined = self.environment.define_or_assign(ident.lexeme().to_string(), function, true);
        assert(defined is Ok);
        self.go(Control::Deliver(Value::Empty))
    }

    /// A `return` starts: it is allowed only inside a function.
    fn execute_return(&mut self, expr: &'a Expr) -> (r: Option<Action>)
        requires
            old(self).well_formed(),
        ensures
            final(self).well_formed(),
            transition(final(self)@, r) == semantics::execute(
                old(self)@,
                crate::ast::StatementView::Return { expr: expr@ },
            ),
    {
        // if one of the parent scope is a function scope, then `return` is allowed
        if self.environment.is_in_function() {
            self.push(Frame::Return { anchor: expr.first_token() });
            self.go(Control::Evaluate(expr))
        } else {
            self.fault(
                ErrorType::RuntimeError,
                expr.first_token(),
                plain("Illegal use of `return` outside of a function".to_string()),
            )
        }
    }

    /// An expression starts.
    fn evaluate(&mut self, expr: &'a Expr) -> (r: Option<Action>)
        requires
            old(self).well_formed(),
        ensures
            final(self).well_formed(),
            transition(final(self)@, r) == semantics::evaluate(old(self)@, expr@),
    {
        match expr {
            Expr::Primary { value } => self.evaluate_primary(value),
            Expr::Unary { operator, expr } => {
                let inner: &'a Expr = &**expr;
                self.push(Frame::Unary { operator });
                self.go(Control::Evaluate(inner))
            },
            Expr::Binary { left_expr, operator, right_expr } => {
                let left: &'a Expr = &**left_expr;
                let right: &'a Expr = &**right_expr;
                self.push(Frame::BinaryLeft { operator, right });
                self.go(Control::Evaluate(left))
            },
            Expr::Grouping { expr } => {
                let inner: &'a Expr = &**expr;
                self.go(Control::Evaluate(inner))
            },
            Expr::Variable { name } => self.evaluate_variable(name),
            Expr::Call { callee, closing_paren, arguments } => {
                proof {
                    call_view(**callee, *closing_paren, *arguments);
                }
                let callee: &'a Expr = &**callee;
                self.push(Frame::Callee { closing_paren, arguments });
                self.go(Control::Evaluate(callee))
            },
        }
    }

    /// The value of a name.
    fn evaluate_variable(&mut self, name: &'a Token) -> (r: Option<Action>)
        requires
            old(self).well_formed(),
        ensures
            final(self).well_formed(),
            transition(final(self)@, r) == semantics::evaluate(
                old(self)@,
                crate::ast::ExprView::Variable { name: name@ },
            ),
    {
        match self.environment.get(name.lexeme()) {
            Some(value) => self.go(Control::Deliver(value)),
            None => self.fault(
                ErrorType::RuntimeError,
                name,
                plain(framed("Undefined symbol `", name.lexeme(), "`")),
            ),
        }
    }

    /// The value of a literal.
    fn evaluate_primary(&mut self, value: &'a Token) -> (r: Option<Action>)
        requires
            old(self).well_formed(),
        ensures
            final(self).well_formed(),
            transition(final(self)@, r) == semantics::evaluate_primary(old(self)@, value@),
    {
        match value.kind() {
            Kind::True => self.go(Control::Deliver(Value::Boolean(true))),
            Kind::False => self.go(Control::Deliver(Value::Boolean(false))),
            Kind::NumberLiteral => self.ask(
                Control::AwaitNumber,
                Action::ParseNumber(value.lexeme().to_string()),
            ),
            Kind::StringLiteral => self.go(Control::Deliver(Value::String(value.literal()))),
            Kind::Boolean => self.go(Control::Deliver(Value::EmptyBoolean)),
            Kind::Number => self.go(Control::Deliver(Value::EmptyNumber)),
            Kind::Empty => self.go(Control::Deliver(Value::Empty)),
            _ => self.fault(
                ErrorType::RuntimeError,
                value,
                plain(framed("Token `", value.lexeme(), "` has no value")),
            ),
        }
    }

    /// The frame on top of the stack takes a value.
    fn deliver(&mut self, value: Value<'a>) -> (r: Option<Action>)
        requires
            old(self).well_formed(),
            old(self)@.control == semantics::ControlView::Idle,
        ensures
            final(self).well_formed(),
            transition(final(self)@, r) == semantics::deliver(old(self)@, value@),
    {
        let frame = match self.pop() {
            Some(frame) => frame,
            None => {
                return self.go(
                    Control::Compose {
                        done: String::new(),
                        rest: showing(&value),
                        then: Then::Finish,
                    },
                );
            },
        };
        match frame {
            Frame::Program { statements, next } => {
                if next < statements.len() {
                    self.push(Frame::Program { statements, next: next + 1 });
                    self.go(Control::Execute(&statements[next]))
                } else {
                    self.go(
                        Control::Compose {
                            done: String::new(),
                            rest: showing(&value),
                            then: Then::Finish,
                        },
                    )
                }
            },
            Frame::Block { statements, next, scoped } => {
                if next < statements.len() {
                    self.push(Frame::Block { statements, next: next + 1, scoped });
                    self.go(Control::Execute(&statements[next]))
                } else {
                    if scoped {
                        self.environment.leave_scope();
                    }
                    self.go(Control::Deliver(Value::Empty))
                }
            },
            Frame::Call => {
                self.environment.leave_scope();
                self.go(Control::Deliver(Value::Empty))
            },
            Frame::Assign { ident } => self.execute_assignment(ident, value),
            Frame::If { then, otherwise, anchor } => self.execute_if(
                then,
                otherwise,
                anchor,
                value,
            ),
            Frame::WhileCondition { condition, body } => self.execute_while(
                condition,
                body,
                value,
            ),
            Frame::WhileBody { condition, body } => {
                self.push(Frame::WhileCondition { condition, body });
                self.go(Control::Evaluate(condition))
            },
            Frame::Return { anchor } => self.go(Control::Unwind { value, anchor }),
            Frame::Unary { operator } => self.evaluate_unary(operator, value),
            Frame::BinaryLeft { operator, right } => self.evaluate_binary_logic(
                operator,
                right,
                value,
            ),
            Frame::LogicRight => self.go(Control::Deliver(Value::Boolean(value.is_true()))),
            Frame::BinaryRight { operator, left } => self.evaluate_binary(operator, left, value),
            Frame::Callee { closing_paren, arguments } => {
                if arguments.len() == 0 {
                    let values: Vec<Value<'a>> = Vec::new();
                    assert(values_view(values@) =~= Seq::empty());
                    self.evaluate_call(value, closing_paren, values)
                } else {
                    let values: Vec<Value<'a>> = Vec::new();
                    assert(values_view(values@) =~= Seq::empty());
                    self.push(Frame::Arguments { callee: value, closing_paren, arguments, values });
                    self.go(Control::Evaluate(&arguments[0]))
                }
            },
            Frame::Arguments { callee, closing_paren, arguments, values } => {
                let mut values = values;
                let more = arguments.len() >= 1 && values.len() < arguments.len() - 1;
                let next = values.len();
                proof {
                    values_view_push(values@, value);
                }
                values.push(value);
                if more {
                    self.push(Frame::Arguments { callee, closing_paren, arguments, values });
                    self.go(Control::Evaluate(&arguments[next + 1]))
                } else {
                    self.evaluate_call(callee, closing_paren, values)
                }
            },
        }
    }

    /// The value of a `return` moves one frame down.
    fn unwind(&mut self, value: Value<'a>, anchor: &'a Token) -> (r: Option<Action>)
        requires
            old(self).well_formed(),
            old(self)@.control == semantics::ControlView::Idle,
        ensures
            final(self).well_formed(),
            transition(final(self)@, r) == semantics::unwind(old(self)@, value@, anchor@),
    {
        if self.stack.len() == 0 {
            return self.fault(
                ErrorType::RuntimeError,
                anchor,
                plain("Illegal use of `return` outside of a function".to_string()),
            );
        }
        if let Frame::Program { .. } = self.stack[self.stack.len() - 1] {
            return self.fault(
                ErrorType::RuntimeError,
                anchor,
                plain("Illegal use of `return` outside of a function".to_string()),
            );
        }
        match self.pop() {
            Some(Frame::Call) => {
                self.environment.leave_scope();
                self.go(Control::Deliver(value))
            },
            Some(Frame::Block { scoped, .. }) => {
                if scoped {
                    self.environment.leave_scope();
                }
                self.go(Control::Unwind { value, anchor })
            },
            _ => self.go(Control::Unwind { value, anchor }),
        }
    }

    /// An assignment takes the value of its right side.
    fn execute_assignment(&mut self, ident: &'a Token, value: Value<'a>) -> (r: Option<Action>)
        requires
            old(self).well_formed(),
        ensures
            final(self).well_formed(),
            transition(final(self)@, r) == semantics::execute_assignment(
                old(self)@,
                ident@,
                value@,
            ),
    {
        let shown = value.copy();
        match self.environment.define_or_assign(ident.lexeme().to_string(), value, false) {
            Ok(_) => self.go(Control::Deliver(Value::Empty)),
            Err(EnvError::EmptyDeclarationNoType) => self.fault(
                ErrorType::RuntimeError,
                ident,
                plain(
                    framed(
                        "Variable `",
                        ident.lexeme(),
                        "` cannot be initialized as `empty`, type must be specified",
                    ),
                ),
            ),
            Err(EnvError::InvalidType(current)) => self.fault(
                ErrorType::TypeError,
                ident,
                around_two(
                    framed(
                        "Variable `",
                        ident.lexeme(),
                        "` already exists, but has a different type (tried to replace `",
                    ),
                    &current,
                    "` with `",
                    &shown,
                    "`)",
                ),
            ),
        }
    }

    /// An `if` takes the value of its condition.
    fn execute_if(
        &mut self,
        then: &'a Statement,
        otherwise: Option<&'a Statement>,
        anchor: &'a Token,
        value: Value<'a>,
    ) -> (r: Option<Action>)
        requires
            old(self).well_formed(),
        ensures
            final(self).well_formed(),
            transition(final(self)@, r) == semantics::execute_if(
                old(self)@,
                then@,
                match otherwise {
                    Some(branch) => Some(branch@),
                    None => None,
                },
                anchor@,
                value@,
            ),
    {
        match value {
            Value::Boolean(true) => self.go(Control::Execute(then)),
            Value::Boolean(false) => match otherwise {
                Some(branch) => self.go(Control::Execute(branch)),
                None => self.go(Control::Deliver(Value::Empty)),
            },
            _ => self.fault(
                ErrorType::TypeError,
                anchor,
                plain("Condition of `if` statement should be a boolean expression".to_string()),
            ),
        }
    }

    /// A `while` takes the value of its condition.
    fn execute_while(&mut self, condition: &'a Expr, body: &'a Statement, value: Value<'a>) -> (r:
        Option<Action>)
        requires
            old(self).well_formed(),
        ensures
            final(self).well_formed(),
            transition(final(self)@, r) == semantics::execute_while(
                old(self)@,
                condition@,
                body@,
                value@,
            ),
    {
        match value {
            Value::Boolean(true) => {
                self.push(Frame::WhileBody { condition, body });
                self.go(Control::Execute(body))
            },
            Value::Boolean(false) => self.go(Control::Deliver(Value::Empty)),
            _ => self.fault(
                ErrorType::TypeError,
                condition.first_token(),
                plain("Condition of `while` statement should be a boolean expression".to_string()),
            ),
        }
    }

    /// A unary operator takes the value of its operand.
    fn evaluate_unary(&mut self, operator: &'a Token, value: Value<'a>) -> (r: Option<Action>)
        requires
            old(self).well_formed(),
        ensures
            final(self).well_formed(),
            transition(final(self)@, r) == semantics::evaluate_unary(
                old(self)@,
                operator@,
                value@,
            ),
    {
        match operator.kind() {
            Kind::Bang => {
                if let Value::Boolean(value) = value {
                    self.go(Control::Deliver(Value::Boolean(!value)))
                } else {
                    self.fault(
                        ErrorType::TypeError,
                        operator,
                        around(
                            "Unary not (`!`) must be applied to a boolean (found `".to_string(),
                            &value,
                            "`)",
                        ),
                    )
                }
            },
            Kind::Minus => {
                if let Value::Number(value) = value {
                    self.go(Control::Deliver(Value::Number(negate(value))))
                } else {
                    self.fault(
                        ErrorType::TypeError,
                        operator,
                        around(
                            "Unary minus (`-`) must be applied to a number (found `".to_string(),
                            &value,
                            "`)",
                        ),
                    )
                }
            },
            _ => self.fault(ErrorType::RuntimeError, operator, not_an_operator(operator)),
        }
    }

    /// A binary operator takes the value of its left operand.
    fn evaluate_binary_logic(&mut self, operator: &'a Token, right: &'a Expr, left: Value<'a>) -> (r:
        Option<Action>)
        requires
            old(self).well_formed(),
        ensures
            final(self).well_formed(),
            transition(final(self)@, r) == semantics::evaluate_binary_logic(
                old(self)@,
                operator@,
                right@,
                left@,
            ),
    {
        match operator.kind() {
            Kind::And => {
                if !left.is_true() {
                    return self.go(Control::Deliver(Value::Boolean(false)));
                }
            },
            Kind::Or => {
                if left.is_true() {
                    return self.go(Control::Deliver(left));
                }
            },
            _ => {
                self.push(Frame::BinaryRight { operator, left });
                return self.go(Control::Evaluate(right));
            },
        }
        self.push(Frame::LogicRight);
        self.go(Control::Evaluate(right))
    }

    /// A binary operator takes the value of its right operand.
    fn evaluate_binary(&mut self, operator: &'a Token, left: Value<'a>, right: Value<'a>) -> (r:
        Option<Action>)
        requires
            old(self).well_formed(),
        ensures
            final(self).well_formed(),
            transition(final(self)@, r) == semantics::evaluate_binary(
                old(self)@,
                operator@,
                left@,
                right@,
            ),
    {
        match operator.kind() {
            Kind::BangEqual | Kind::EqualEqual => self.go(
                Control::Deliver(evaluate_equality(&left, operator.kind(), &right)),
            ),
            Kind::Greater | Kind::GreaterEqual | Kind::Less | Kind::LessEqual => {
                self.evaluate_comparison(operator, left, right)
            },
            kind => match operation(kind) {
                Some(operation) => self.evaluate_math_operation(operator, operation, left, right),
                None => self.fault(ErrorType::RuntimeError, operator, not_an_operator(operator)),
            },
        }
    }

    /// A comparison: between two numbers only.
    fn evaluate_comparison(&mut self, operator: &'a Token, left: Value<'a>, right: Value<'a>) -> (r:
        Option<Action>)
        requires
            old(self).well_formed(),
        ensures
            final(self).well_formed(),
            transition(final(self)@, r) == semantics::evaluate_comparison(
                old(self)@,
                operator@,
                left@,
                right@,
            ),
    {
        match (&left, &right) {
            (Value::Number(a), Value::Number(b)) => self.go(
                Control::Deliver(Value::Boolean(compares(operator.kind(), *a, *b))),
            ),
            _ => self.fault(
                ErrorType::TypeError,
                operator,
                around_two(
                    "Comparison can only be performed between two numbers (found `".to_string(),
                    &left,
                    "` and `",
                    &right,
                    "`)",
                ),
            ),
        }
    }

    /// Arithmetic; see [`semantics::evaluate_math_operation`].
    fn evaluate_math_operation(
        &mut self,
        operator: &'a Token,
        operation: Operation,
        left: Value<'a>,
        right: Value<'a>,
    ) -> (r: Option<Action>)
        requires
            old(self).well_formed(),
        ensures
            final(self).well_formed(),
            transition(final(self)@, r) == semantics::evaluate_math_operation(
                old(self)@,
                operator@,
                operation,
                left@,
                right@,
            ),
    {
        match &left {
            Value::Number(a) => match &right {
                Value::Number(b) => self.ask(
                    Control::AwaitNumber,
                    Action::Arithmetic(operation, *a, *b),
                ),
                _ => self.fault(
                    ErrorType::TypeError,
                    operator,
                    operands_message(operator, operation, &left, &right),
                ),
            },
            Value::String(a) => match &right {
                Value::String(b) => {
                    if operation == Operation::Add {
                        let mut joined = a.clone();
                        joined.append(b.as_str());
                        self.go(Control::Deliver(Value::String(joined)))
                    } else {
                        self.fault(
                            ErrorType::TypeError,
                            operator,
                            plain("Only addition (`+`) can be used between two strings".to_string()),
                        )
                    }
                },
                Value::Number(b) => {
                    if operation == Operation::Multiply {
                        match repetitions(*b) {
                            Some(times) => self.go(
                                Control::Deliver(Value::String(repeat(a.as_str(), times))),
                            ),
                            None => self.fault(
                                ErrorType::RuntimeError,
                                operator,
                                around(
                                    "Multiplication (`*`) between a string and a number requires a positive integer (found `".to_string(),
                                    &right,
                                    "`)",
                                ),
                            ),
                        }
                    } else {
                        self.fault(
                            ErrorType::TypeError,
                            operator,
                            plain(
                                "Only multiplication (`*`) can be used between a string and a number".to_string(),
                            ),
                        )
                    }
                },
                _ => self.fault(
                    ErrorType::TypeError,
                    operator,
                    operands_message(operator, operation, &left, &right),
                ),
            },
            _ => self.fault(
                ErrorType::TypeError,
                operator,
                operands_message(operator, operation, &left, &right),
            ),
        }
    }

    /// A call, once the callee and the arguments have their values.
    fn evaluate_call(
        &mut self,
        callee: Value<'a>,
        closing_paren: &'a Token,
        values: Vec<Value<'a>>,
    ) -> (r: Option<Action>)
        requires
            old(self).well_formed(),
        ensures
            final(self).well_formed(),
            transition(final(self)@, r) == semantics::evaluate_call(
                old(self)@,
                callee@,
                closing_paren@,
                values_view(values@),
            ),
    {
        match callee {
            Value::Function { name, args, body } => {
                if args.len() != values.len() {
                    return self.fault(
                        ErrorType::TypeError,
                        closing_paren,
                        plain(arity_message(args.len(), values.len())),
                    );
                }
                if let Some(i) = first_untyped(&values) {
                    return self.fault(
                        ErrorType::RuntimeError,
                        closing_paren,
                        plain(
                            framed(
                                "Variable `",
                                args[i].as_str(),
                                "` cannot be initialized as `empty`, type must be specified",
                            ),
                        ),
                    );
                }
                self.call(&args, &values, body)
            },
            Value::NativeFunction { name, args, body } => {
                if args.len() != values.len() {
                    return self.fault(
                        ErrorType::TypeError,
                        closing_paren,
                        plain(arity_message(args.len(), values.len())),
                    );
                }
                let argument = if values.len() > 0 {
                    values[0].copy()
                } else {
                    Value::Empty
                };
                self.call_native(body, argument)
            },
            _ => self.fault(
                ErrorType::TypeError,
                closing_paren,
                plain("Expression not callable".to_string()),
            ),
        }
    }

    /// The call of a user function starts: a function scope is entered,
    /// the parameters are bound there, and the body is next.
    fn call(&mut self, args: &Vec<String>, values: &Vec<Value<'a>>, body: &'a Vec<Statement>) -> (r:
        Option<Action>)
        requires
            old(self).well_formed(),
            args.len() == values.len(),
            semantics::first_untyped(values_view(values@), 0) is None,
        ensures
            final(self).well_formed(),
            transition(final(self)@, r) == semantics::go(
                MachineView {
                    control: old(self)@.control,
                    stack: old(self)@.stack.push(semantics::FrameView::Call).push(
                        semantics::FrameView::Block {
                            statements: crate::ast::statements_view(body@),
                            next: 0,
                            scoped: false,
                        },
                    ),
                    scopes: semantics::with_arguments(
                        crate::environment::entered(old(self)@.scopes, true),
                        names_view(args@),
                        values_view(values@),
                        args@.len(),
                    ),
                },
                semantics::ControlView::Deliver(ValueView::Empty),
            ),
    {
        self.environment.enter_scope(true);
        let ghost start = self.environment@;
        let mut i: usize = 0;
        proof {
            crate::guarantees::all_typed(values_view(values@), 0);
            self.environment.has_global();
        }
        while i < args.len()
            invariant
                i <= args.len(),
                args.len() == values.len(),
                self.environment.well_formed(),
                self.control == old(self).control,
                self.stack == old(self).stack,
                self.environment@.len() >= 1,
                start == crate::environment::entered(old(self)@.scopes, true),
                forall|j: int|
                    0 <= j < values.len() ==> !(#[trigger] values_view(values@)[j] is Empty),
                self.environment@ == semantics::with_arguments(
                    start,
                    names_view(args@),
                    values_view(values@),
                    i as nat,
                ),
            decreases args.len() - i,
        {
            // A new scope was just entered, so every assignment is a new variable
            let _ = self.environment.define_or_assign(args[i].clone(), values[i].copy(), true);
            i += 1;
        }
        self.push(Frame::Call);
        self.push(Frame::Block { statements: body, next: 0, scoped: false });
        self.go(Control::Deliver(Value::Empty))
    }

    /// A call of a function of the host, with its first argument.
    fn call_native(&mut self, native: Native, argument: Value<'a>) -> (r: Option<Action>)
        requires
            old(self).well_formed(),
        ensures
            final(self).well_formed(),
            transition(final(self)@, r) == semantics::call_native(old(self)@, native, argument@),
    {
        match native {
            Native::Out => self.go(
                Control::Compose {
                    done: String::new(),
                    rest: showing(&argument),
                    then: Then::Output(Value::Empty),
                },
            ),
            Native::Ask => self.native_ask(argument),
            Native::Size => self.native_size(argument),
            Native::Time => self.ask(Control::AwaitNumber, Action::Time),
            Native::Cmd => self.native_cmd(argument),
        }
    }

    /// `ask`: prompts with a string and reads a line.
    fn native_ask(&mut self, argument: Value<'a>) -> (r: Option<Action>)
        requires
            old(self).well_formed(),
        ensures
            final(self).well_formed(),
            transition(final(self)@, r) == semantics::call_native(
                old(self)@,
                Native::Ask,
                argument@,
            ),
    {
        match argument {
            Value::String(prompt) => self.ask(Control::AwaitString, Action::Ask(prompt)),
            _ => self.ask(
                Control::AwaitOutput(Value::String(String::new())),
                Action::Output(framed("error: `", "ask", "` can only take a string as argument")),
            ),
        }
    }

    /// `size`: the length of a string, in bytes.
    fn native_size(&mut self, argument: Value<'a>) -> (r: Option<Action>)
        requires
            old(self).well_formed(),
        ensures
            final(self).well_formed(),
            transition(final(self)@, r) == semantics::call_native(
                old(self)@,
                Native::Size,
                argument@,
            ),
    {
        match argument {
            Value::String(text) => {
                let length = text.as_str().len();
                self.ask(Control::AwaitNumber, Action::FromInteger(length as u64))
            },
            _ => self.ask(
                Control::AwaitOutput(Value::Number(ZERO)),
                Action::Output(framed("error: `", "size", "` can only take a string as argument")),
            ),
        }
    }

    /// `cmd`: runs the program that the first word of a string names, with
    /// the other words as its arguments.
    fn native_cmd(&mut self, argument: Value<'a>) -> (r: Option<Action>)
        requires
            old(self).well_formed(),
        ensures
            final(self).well_formed(),
            transition(final(self)@, r) == semantics::call_native(
                old(self)@,
                Native::Cmd,
                argument@,
            ),
    {
        match argument {
            Value::String(command) => {
                let mut split = split_words(command.as_str());
                if split.len() == 0 {
                    self.go(Control::Deliver(Value::String(String::new())))
                } else {
                    let ghost all = names_view(split@);
                    let program = split.remove(0);
                    assert(names_view(split@) =~= all.skip(1));
                    self.ask(Control::AwaitString, Action::Command { program, arguments: split })
                }
            },
            _ => self.ask(
                Control::AwaitOutput(Value::String(String::new())),
                Action::Output(framed("error: `", "cmd", "` can only take a string as argument")),
            ),
        }
    }
}

} // verus!
