//! What evaluation means: a machine that takes one small step at a time.
//!
//! A machine holds what it is about to do (its control), what is left to do
//! afterwards (a stack of frames) and the environment. A step either moves
//! the machine on by itself or hands the host a request; the host's reply
//! comes in with the next step. Nothing here performs an effect.

use crate::ast::{ExprView, StatementView};
use crate::environment::{
    assigned, bound, entered, in_function, left, lookup, EnvErrorView, ScopeView,
};
use crate::errors::{ErrorDetailsView, ErrorType};
use crate::text::{decimal_nat, repeated, words};
use crate::number::{
    spec_negate, spec_number_equal, spec_number_less, spec_repetitions, ZERO,
};
use crate::token::{Kind, TokenView};
use crate::value::{Native, PieceView, ValueView};
use vstd::prelude::*;

verus! {

/// The arithmetic that is asked of the host.
#[derive(Debug, Clone, Copy, PartialEq, Eq, Structural)]
pub enum Operation {
    Add,
    Subtract,
    Multiply,
    Divide,
    /// The remainder that is never negative.
    Remainder,
    Power,
}

/// What becomes of a text once it is complete.
pub enum ThenView {
    /// It is the result of the evaluation.
    Finish,
    /// The host writes it out; the value is what the writing function returns.
    Output(ValueView),
    /// It is the message of the error that ends the evaluation.
    Fail { error_type: ErrorType, line: int, column: int },
}

/// What the machine is about to do.
pub enum ControlView {
    /// Nothing: no program is loaded, or the evaluation has ended.
    Idle,
    Execute(StatementView),
    Evaluate(ExprView),
    /// Hand a value to the frame on top of the stack.
    Deliver(ValueView),
    /// Carry the value of a `return` down to the call it returns from.
    Unwind { value: ValueView, anchor: TokenView },
    /// Put a text together, piece by piece.
    Compose { done: Seq<char>, rest: Seq<PieceView>, then: ThenView },
    /// Wait for the text of a number, to go on composing.
    AwaitText { done: Seq<char>, rest: Seq<PieceView>, then: ThenView },
    /// Wait for a number, to deliver it.
    AwaitNumber,
    /// Wait for a text, to deliver it as a string.
    AwaitString,
    /// Wait until the host has written, to deliver the value.
    AwaitOutput(ValueView),
}

/// What is left to do once the control has produced a value.
pub enum FrameView {
    /// The statements of the program; `next` is the one to execute next.
    Program { statements: Seq<StatementView>, next: nat },
    /// The statements of a block; `scoped` if the block has a scope of its own.
    Block { statements: Seq<StatementView>, next: nat, scoped: bool },
    /// The call of a user function: where a `return` stops.
    Call,
    Assign { ident: TokenView },
    If { then: StatementView, otherwise: Option<StatementView>, anchor: TokenView },
    WhileCondition { condition: ExprView, body: StatementView },
    WhileBody { condition: ExprView, body: StatementView },
    Return { anchor: TokenView },
    Unary { operator: TokenView },
    BinaryLeft { operator: TokenView, right: ExprView },
    LogicRight,
    BinaryRight { operator: TokenView, left: ValueView },
    Callee { closing_paren: TokenView, arguments: Seq<ExprView> },
    Arguments {
        callee: ValueView,
        closing_paren: TokenView,
        arguments: Seq<ExprView>,
        values: Seq<ValueView>,
    },
}

/// What the machine asks of its host, or tells it.
pub enum ActionView {
    /// The evaluation is complete; this is the last value, as text.
    Finished(Seq<char>),
    /// The evaluation has stopped with this error.
    Failed(ErrorDetailsView),
    /// The steps allowed for this call are used up; resume to go on.
    Paused,
    /// Convert a decimal numeral to a number.
    ParseNumber(Seq<char>),
    /// Compute with two numbers.
    Arithmetic(Operation, u64, u64),
    /// Write a number as text.
    RenderNumber(u64),
    /// Convert a whole number to a number.
    FromInteger(u64),
    /// Write a line to standard output.
    Output(Seq<char>),
    /// Prompt, and read a line of input.
    Ask(Seq<char>),
    /// Read the clock.
    Time,
    /// Run a program and collect what it writes.
    Command { program: Seq<char>, arguments: Seq<Seq<char>> },
}

/// What the host tells the machine when it resumes it.
pub enum EventView {
    /// Nothing: the machine was paused, or the host has done what was asked.
    Resume,
    Number(u64),
    Text(Seq<char>),
}

/// The state of the machine.
pub struct MachineView {
    pub control: ControlView,
    pub stack: Seq<FrameView>,
    pub scopes: Seq<ScopeView>,
}

/// The outcome of a step: the new state, and what is asked of the host, if anything.
pub struct Transition {
    pub machine: MachineView,
    pub action: Option<ActionView>,
}

/// The machine goes on by itself, with `control`.
pub open spec fn go(m: MachineView, control: ControlView) -> Transition {
    Transition { machine: MachineView { control, stack: m.stack, scopes: m.scopes }, action: None }
}

/// The machine waits with `control` for the host's reply to `action`.
pub open spec fn ask(m: MachineView, control: ControlView, action: ActionView) -> Transition {
    Transition {
        machine: MachineView { control, stack: m.stack, scopes: m.scopes },
        action: Some(action),
    }
}

/// The machine with one more frame.
pub open spec fn pushed(m: MachineView, frame: FrameView) -> MachineView {
    MachineView { control: m.control, stack: m.stack.push(frame), scopes: m.scopes }
}

/// The machine without its top frame.
pub open spec fn popped(m: MachineView) -> MachineView {
    MachineView { control: m.control, stack: m.stack.drop_last(), scopes: m.scopes }
}

/// The machine with other scopes.
pub open spec fn scoped(m: MachineView, scopes: Seq<ScopeView>) -> MachineView {
    MachineView { control: m.control, stack: m.stack, scopes }
}

/// The machine after its evaluation has ended: nothing is left to do, and
/// only the global scope is left.
pub open spec fn halted(m: MachineView) -> MachineView {
    MachineView { control: ControlView::Idle, stack: Seq::empty(), scopes: m.scopes.take(1) }
}

/// The machine starts to put the message of an error together. The error
/// is anchored at `token`; the evaluation ends when the message is complete.
pub open spec fn fault(
    m: MachineView,
    error_type: ErrorType,
    token: TokenView,
    pieces: Seq<PieceView>,
) -> Transition {
    go(
        m,
        ControlView::Compose {
            done: Seq::empty(),
            rest: pieces,
            then: ThenView::Fail { error_type, line: token.line, column: token.column },
        },
    )
}

/// A message that is one known text.
pub open spec fn plain(text: Seq<char>) -> Seq<PieceView> {
    seq![PieceView::Text(text)]
}

/// A message around one value.
pub open spec fn around(before: Seq<char>, value: ValueView, after: Seq<char>) -> Seq<PieceView> {
    seq![PieceView::Text(before), value.shown(), PieceView::Text(after)]
}

/// A message around two values.
pub open spec fn around_two(
    before: Seq<char>,
    first: ValueView,
    between: Seq<char>,
    second: ValueView,
    after: Seq<char>,
) -> Seq<PieceView> {
    seq![
        PieceView::Text(before),
        first.shown(),
        PieceView::Text(between),
        second.shown(),
        PieceView::Text(after),
    ]
}

/// The lexemes of a list of tokens.
pub open spec fn lexemes(tokens: Seq<TokenView>) -> Seq<Seq<char>> {
    tokens.map_values(|t: TokenView| t.lexeme)
}

/// A statement starts.
pub open spec fn execute(m: MachineView, statement: StatementView) -> Transition {
    match statement {
        StatementView::Expr { expr } => go(m, ControlView::Evaluate(expr)),
        StatementView::Assignment { ident, value } => go(
            pushed(m, FrameView::Assign { ident }),
            ControlView::Evaluate(value),
        ),
        StatementView::Block { statements } => go(
            scoped(
                pushed(m, FrameView::Block { statements, next: 0, scoped: true }),
                entered(m.scopes, m.scopes.last().function),
            ),
            ControlView::Deliver(ValueView::Empty),
        ),
        StatementView::If { condition, then, otherwise } => go(
            pushed(
                m,
                FrameView::If {
                    then: *then,
                    otherwise: match otherwise {
                        Some(branch) => Some(*branch),
                        None => None,
                    },
                    anchor: condition.first_token(),
                },
            ),
            ControlView::Evaluate(condition),
        ),
        StatementView::While { condition, body } => go(
            pushed(m, FrameView::WhileCondition { condition, body: *body }),
            ControlView::Evaluate(condition),
        ),
        StatementView::FunctionDeclaration { ident, params, body } => declare(
            m,
            ident,
            params,
            body,
        ),
        StatementView::Return { expr } => if in_function(m.scopes) {
            go(
                pushed(m, FrameView::Return { anchor: expr.first_token() }),
                ControlView::Evaluate(expr),
            )
        } else {
            fault(
                m,
                ErrorType::RuntimeError,
                expr.first_token(),
                plain("Illegal use of `return` outside of a function"@),
            )
        },
    }
}

/// A function is declared: its name is bound in the top scope, unless the
/// name is bound already, which is a type error.
pub open spec fn declare(
    m: MachineView,
    ident: TokenView,
    params: Seq<TokenView>,
    body: Seq<StatementView>,
) -> Transition {
    if lookup(m.scopes, ident.lexeme) is Some {
        fault(
            m,
            ErrorType::TypeError,
            ident,
            plain("Identifier `"@ + ident.lexeme + "` has already been declared"@),
        )
    } else {
        go(
            scoped(
                m,
                bound(
                    m.scopes,
                    m.scopes.len() - 1,
                    ident.lexeme,
                    ValueView::Function { name: ident.lexeme, args: lexemes(params), body },
                ),
            ),
            ControlView::Deliver(ValueView::Empty),
        )
    }
}

/// An expression starts.
pub open spec fn evaluate(m: MachineView, expr: ExprView) -> Transition {
    match expr {
        ExprView::Primary { value } => evaluate_primary(m, value),
        ExprView::Unary { operator, expr } => go(
            pushed(m, FrameView::Unary { operator }),
            ControlView::Evaluate(*expr),
        ),
        ExprView::Binary { left_expr, operator, right_expr } => go(
            pushed(m, FrameView::BinaryLeft { operator, right: *right_expr }),
            ControlView::Evaluate(*left_expr),
        ),
        ExprView::Grouping { expr } => go(m, ControlView::Evaluate(*expr)),
        ExprView::Variable { name } => match lookup(m.scopes, name.lexeme) {
            Some(value) => go(m, ControlView::Deliver(value)),
            None => fault(
                m,
                ErrorType::RuntimeError,
                name,
                plain("Undefined symbol `"@ + name.lexeme + "`"@),
            ),
        },
        ExprView::Call { callee, closing_paren, arguments } => go(
            pushed(m, FrameView::Callee { closing_paren, arguments }),
            ControlView::Evaluate(*callee),
        ),
    }
}

/// The value of a literal. The value of a numeral is asked of the host.
pub open spec fn evaluate_primary(m: MachineView, token: TokenView) -> Transition {
    if token.kind == Kind::True {
        go(m, ControlView::Deliver(ValueView::Boolean(true)))
    } else if token.kind == Kind::False {
        go(m, ControlView::Deliver(ValueView::Boolean(false)))
    } else if token.kind == Kind::NumberLiteral {
        ask(m, ControlView::AwaitNumber, ActionView::ParseNumber(token.lexeme))
    } else if token.kind == Kind::StringLiteral {
        go(m, ControlView::Deliver(ValueView::String(token.literal)))
    } else if token.kind == Kind::Boolean {
        go(m, ControlView::Deliver(ValueView::EmptyBoolean))
    } else if token.kind == Kind::Number {
        go(m, ControlView::Deliver(ValueView::EmptyNumber))
    } else if token.kind == Kind::Empty {
        go(m, ControlView::Deliver(ValueView::Empty))
    } else {
        fault(
            m,
            ErrorType::RuntimeError,
            token,
            plain("Token `"@ + token.lexeme + "` has no value"@),
        )
    }
}

/// The frame on top of the stack takes a value.
pub open spec fn deliver(m: MachineView, value: ValueView) -> Transition {
    if m.stack.len() == 0 {
        go(
            m,
            ControlView::Compose {
                done: Seq::empty(),
                rest: seq![value.shown()],
                then: ThenView::Finish,
            },
        )
    } else {
        let rest = popped(m);
        match m.stack.last() {
            FrameView::Program { statements, next } => if next < statements.len() {
                go(
                    pushed(rest, FrameView::Program { statements, next: next + 1 }),
                    ControlView::Execute(statements[next as int]),
                )
            } else {
                go(
                    rest,
                    ControlView::Compose {
                        done: Seq::empty(),
                        rest: seq![value.shown()],
                        then: ThenView::Finish,
                    },
                )
            },
            FrameView::Block { statements, next, scoped: has_scope } => if next
                < statements.len() {
                go(
                    pushed(rest, FrameView::Block { statements, next: next + 1, scoped: has_scope }),
                    ControlView::Execute(statements[next as int]),
                )
            } else if has_scope {
                go(scoped(rest, left(rest.scopes)), ControlView::Deliver(ValueView::Empty))
            } else {
                go(rest, ControlView::Deliver(ValueView::Empty))
            },
            FrameView::Call => go(
                scoped(rest, left(rest.scopes)),
                ControlView::Deliver(ValueView::Empty),
            ),
            FrameView::Assign { ident } => execute_assignment(rest, ident, value),
            FrameView::If { then, otherwise, anchor } => execute_if(
                rest,
                then,
                otherwise,
                anchor,
                value,
            ),
            FrameView::WhileCondition { condition, body } => execute_while(
                rest,
                condition,
                body,
                value,
            ),
            FrameView::WhileBody { condition, body } => go(
                pushed(rest, FrameView::WhileCondition { condition, body }),
                ControlView::Evaluate(condition),
            ),
            FrameView::Return { anchor } => go(rest, ControlView::Unwind { value, anchor }),
            FrameView::Unary { operator } => evaluate_unary(rest, operator, value),
            FrameView::BinaryLeft { operator, right } => evaluate_binary_logic(
                rest,
                operator,
                right,
                value,
            ),
            FrameView::LogicRight => go(
                rest,
                ControlView::Deliver(ValueView::Boolean(value.is_true())),
            ),
            FrameView::BinaryRight { operator, left } => evaluate_binary(
                rest,
                operator,
                left,
                value,
            ),
            FrameView::Callee { closing_paren, arguments } => if arguments.len() == 0 {
                evaluate_call(rest, value, closing_paren, Seq::empty())
            } else {
                go(
                    pushed(
                        rest,
                        FrameView::Arguments {
                            callee: value,
                            closing_paren,
                            arguments,
                            values: Seq::empty(),
                        },
                    ),
                    ControlView::Evaluate(arguments[0]),
                )
            },
            FrameView::Arguments { callee, closing_paren, arguments, values } => if values.len()
                + 1 < arguments.len() {
                go(
                    pushed(
                        rest,
                        FrameView::Arguments {
                            callee,
                            closing_paren,
                            arguments,
                            values: values.push(value),
                        },
                    ),
                    ControlView::Evaluate(arguments[values.len() as int + 1]),
                )
            } else {
                evaluate_call(rest, callee, closing_paren, values.push(value))
            },
        }
    }
}

/// The value of a `return` moves one frame down. The frame of the call
/// takes it as the call's value, and the call's scope ends; a block on the
/// way ends with its scope; every other frame is dropped. At the program
/// itself there is no call to return from.
pub open spec fn unwind(m: MachineView, value: ValueView, anchor: TokenView) -> Transition {
    if m.stack.len() == 0 {
        fault(
            m,
            ErrorType::RuntimeError,
            anchor,
            plain("Illegal use of `return` outside of a function"@),
        )
    } else {
        let rest = popped(m);
        match m.stack.last() {
            FrameView::Call => go(scoped(rest, left(rest.scopes)), ControlView::Deliver(value)),
            FrameView::Block { scoped: has_scope, .. } => if has_scope {
                go(scoped(rest, left(rest.scopes)), ControlView::Unwind { value, anchor })
            } else {
                go(rest, ControlView::Unwind { value, anchor })
            },
            FrameView::Program { .. } => fault(
                m,
                ErrorType::RuntimeError,
                anchor,
                plain("Illegal use of `return` outside of a function"@),
            ),
            _ => go(rest, ControlView::Unwind { value, anchor }),
        }
    }
}

/// An assignment takes the value of its right side.
pub open spec fn execute_assignment(m: MachineView, ident: TokenView, value: ValueView) -> Transition {
    match assigned(m.scopes, ident.lexeme, value, false) {
        Ok(scopes) => go(scoped(m, scopes), ControlView::Deliver(ValueView::Empty)),
        Err(EnvErrorView::EmptyDeclarationNoType) => fault(
            m,
            ErrorType::RuntimeError,
            ident,
            plain(
                "Variable `"@ + ident.lexeme
                    + "` cannot be initialized as `empty`, type must be specified"@,
            ),
        ),
        Err(EnvErrorView::InvalidType(current)) => fault(
            m,
            ErrorType::TypeError,
            ident,
            around_two(
                "Variable `"@ + ident.lexeme
                    + "` already exists, but has a different type (tried to replace `"@,
                current,
                "` with `"@,
                value,
                "`)"@,
            ),
        ),
    }
}

/// An `if` takes the value of its condition.
pub open spec fn execute_if(
    m: MachineView,
    then: StatementView,
    otherwise: Option<StatementView>,
    anchor: TokenView,
    value: ValueView,
) -> Transition {
    if value == ValueView::Boolean(true) {
        go(m, ControlView::Execute(then))
    } else if value == ValueView::Boolean(false) {
        match otherwise {
            Some(branch) => go(m, ControlView::Execute(branch)),
            None => go(m, ControlView::Deliver(ValueView::Empty)),
        }
    } else {
        fault(
            m,
            ErrorType::TypeError,
            anchor,
            plain("Condition of `if` statement should be a boolean expression"@),
        )
    }
}

/// A `while` takes the value of its condition.
pub open spec fn execute_while(
    m: MachineView,
    condition: ExprView,
    body: StatementView,
    value: ValueView,
) -> Transition {
    if value == ValueView::Boolean(true) {
        go(pushed(m, FrameView::WhileBody { condition, body }), ControlView::Execute(body))
    } else if value == ValueView::Boolean(false) {
        go(m, ControlView::Deliver(ValueView::Empty))
    } else {
        fault(
            m,
            ErrorType::TypeError,
            condition.first_token(),
            plain("Condition of `while` statement should be a boolean expression"@),
        )
    }
}

/// A unary operator takes the value of its operand.
pub open spec fn evaluate_unary(m: MachineView, operator: TokenView, value: ValueView) -> Transition {
    if operator.kind == Kind::Bang {
        match value {
            ValueView::Boolean(b) => go(m, ControlView::Deliver(ValueView::Boolean(!b))),
            _ => fault(
                m,
                ErrorType::TypeError,
                operator,
                around("Unary not (`!`) must be applied to a boolean (found `"@, value, "`)"@),
            ),
        }
    } else if operator.kind == Kind::Minus {
        match value {
            ValueView::Number(bits) => go(
                m,
                ControlView::Deliver(ValueView::Number(spec_negate(bits))),
            ),
            _ => fault(
                m,
                ErrorType::TypeError,
                operator,
                around("Unary minus (`-`) must be applied to a number (found `"@, value, "`)"@),
            ),
        }
    } else {
        fault(m, ErrorType::RuntimeError, operator, not_an_operator(operator))
    }
}

/// The message for a token that stands where an operator belongs.
pub open spec fn not_an_operator(operator: TokenView) -> Seq<PieceView> {
    plain("Token `"@ + operator.lexeme + "` is no operator"@)
}

/// Whether the left operand decides an `and` or an `or` by itself: an
/// `and` whose left side is not `true`, an `or` whose left side is `true`.
pub open spec fn decides(operator: Kind, left: ValueView) -> bool {
    if operator == Kind::And {
        !left.is_true()
    } else {
        left.is_true()
    }
}

/// A binary operator takes the value of its left operand. Where that
/// decides an `and` or an `or`, the right operand is not evaluated.
pub open spec fn evaluate_binary_logic(
    m: MachineView,
    operator: TokenView,
    right: ExprView,
    left: ValueView,
) -> Transition {
    if operator.kind == Kind::And || operator.kind == Kind::Or {
        if decides(operator.kind, left) {
            go(m, ControlView::Deliver(ValueView::Boolean(left.is_true())))
        } else {
            go(pushed(m, FrameView::LogicRight), ControlView::Evaluate(right))
        }
    } else {
        go(pushed(m, FrameView::BinaryRight { operator, left }), ControlView::Evaluate(right))
    }
}

/// A binary operator takes the value of its right operand.
pub open spec fn evaluate_binary(
    m: MachineView,
    operator: TokenView,
    left: ValueView,
    right: ValueView,
) -> Transition {
    let kind = operator.kind;
    if kind == Kind::BangEqual || kind == Kind::EqualEqual {
        go(m, ControlView::Deliver(evaluate_equality(left, kind, right)))
    } else if kind == Kind::Greater || kind == Kind::GreaterEqual || kind == Kind::Less || kind
        == Kind::LessEqual {
        evaluate_comparison(m, operator, left, right)
    } else if operation(kind) is Some {
        evaluate_math_operation(m, operator, operation(kind)->0, left, right)
    } else {
        fault(m, ErrorType::RuntimeError, operator, not_an_operator(operator))
    }
}

/// The value of `left == right`, or of `left != right`.
pub open spec fn evaluate_equality(left: ValueView, operator: Kind, right: ValueView) -> ValueView {
    ValueView::Boolean(
        if operator == Kind::EqualEqual {
            left.equals(right)
        } else {
            !left.equals(right)
        },
    )
}

/// Whether a comparison holds between two numbers.
pub open spec fn compares(operator: Kind, left: u64, right: u64) -> bool {
    if operator == Kind::Greater {
        spec_number_less(right, left)
    } else if operator == Kind::GreaterEqual {
        spec_number_less(right, left) || spec_number_equal(left, right)
    } else if operator == Kind::Less {
        spec_number_less(left, right)
    } else {
        spec_number_less(left, right) || spec_number_equal(left, right)
    }
}

/// A comparison: between two numbers only.
pub open spec fn evaluate_comparison(
    m: MachineView,
    operator: TokenView,
    left: ValueView,
    right: ValueView,
) -> Transition {
    match (left, right) {
        (ValueView::Number(a), ValueView::Number(b)) => go(
            m,
            ControlView::Deliver(ValueView::Boolean(compares(operator.kind, a, b))),
        ),
        _ => fault(
            m,
            ErrorType::TypeError,
            operator,
            around_two(
                "Comparison can only be performed between two numbers (found `"@,
                left,
                "` and `"@,
                right,
                "`)"@,
            ),
        ),
    }
}

/// The arithmetic that an operator stands for.
pub open spec fn operation(kind: Kind) -> Option<Operation> {
    if kind == Kind::Plus {
        Some(Operation::Add)
    } else if kind == Kind::Minus {
        Some(Operation::Subtract)
    } else if kind == Kind::Star {
        Some(Operation::Multiply)
    } else if kind == Kind::Slash {
        Some(Operation::Divide)
    } else if kind == Kind::Percent {
        Some(Operation::Remainder)
    } else if kind == Kind::Caret {
        Some(Operation::Power)
    } else {
        None
    }
}

/// The name of an operation in a message.
pub open spec fn operation_name(operation: Operation) -> Seq<char> {
    match operation {
        Operation::Add => "Addition"@,
        Operation::Subtract => "Substraction"@,
        Operation::Multiply => "Multiplication"@,
        Operation::Divide => "Division"@,
        Operation::Remainder => "Modulo"@,
        Operation::Power => "Exponentiation"@,
    }
}

/// The message for operands that an operation does not take.
pub open spec fn operands_message(
    operator: TokenView,
    operation: Operation,
    left: ValueView,
    right: ValueView,
) -> Seq<PieceView> {
    around_two(
        operation_name(operation) + " (`"@ + operator.lexeme
            + "`) can only be performed between two numbers"@ + (if operation == Operation::Add {
            " or two strings"@
        } else if operation == Operation::Multiply {
            " or a string and a number"@
        } else {
            ""@
        }) + " (found `"@,
        left,
        "` and `"@,
        right,
        "`)"@,
    )
}

/// Arithmetic. Between two numbers it is asked of the host. Two strings
/// can be added, which joins them; a string can be multiplied by a whole
/// number that is not negative, which repeats it, and by no other number,
/// which is a runtime error. Every other pairing of operands is a type
/// error.
pub open spec fn evaluate_math_operation(
    m: MachineView,
    operator: TokenView,
    operation: Operation,
    left: ValueView,
    right: ValueView,
) -> Transition {
    match left {
        ValueView::Number(a) => match right {
            ValueView::Number(b) => ask(
                m,
                ControlView::AwaitNumber,
                ActionView::Arithmetic(operation, a, b),
            ),
            _ => fault(m, ErrorType::TypeError, operator, operands_message(operator, operation, left, right)),
        },
        ValueView::String(a) => match right {
            ValueView::String(b) => if operation == Operation::Add {
                go(m, ControlView::Deliver(ValueView::String(a + b)))
            } else {
                fault(
                    m,
                    ErrorType::TypeError,
                    operator,
                    plain("Only addition (`+`) can be used between two strings"@),
                )
            },
            ValueView::Number(b) => if operation == Operation::Multiply {
                match spec_repetitions(b) {
                    Some(times) => go(
                        m,
                        ControlView::Deliver(ValueView::String(repeated(a, times as nat))),
                    ),
                    None => fault(
                        m,
                        ErrorType::RuntimeError,
                        operator,
                        around(
                            "Multiplication (`*`) between a string and a number requires a positive integer (found `"@,
                            right,
                            "`)"@,
                        ),
                    ),
                }
            } else {
                fault(
                    m,
                    ErrorType::TypeError,
                    operator,
                    plain(
                        "Only multiplication (`*`) can be used between a string and a number"@,
                    ),
                )
            },
            _ => fault(m, ErrorType::TypeError, operator, operands_message(operator, operation, left, right)),
        },
        _ => fault(m, ErrorType::TypeError, operator, operands_message(operator, operation, left, right)),
    }
}

/// The message for a call with the wrong number of arguments.
pub open spec fn arity_message(expected: nat, found: nat) -> Seq<char> {
    "Expected "@ + decimal_nat(expected) + " argument"@ + (if expected == 1 {
        ""@
    } else {
        "s"@
    }) + ", but found "@ + decimal_nat(found)
}

/// The message for an `empty` that has no type to take.
pub open spec fn untyped_message(name: Seq<char>) -> Seq<char> {
    "Variable `"@ + name + "` cannot be initialized as `empty`, type must be specified"@
}

/// The scopes with the first `count` arguments bound to their parameters in the top scope.
pub open spec fn with_arguments(
    scopes: Seq<ScopeView>,
    args: Seq<Seq<char>>,
    values: Seq<ValueView>,
    count: nat,
) -> Seq<ScopeView>
    decreases count,
{
    if count == 0 {
        scopes
    } else {
        let before = with_arguments(scopes, args, values, (count - 1) as nat);
        bound(before, before.len() - 1, args[count - 1], values[count - 1])
    }
}

/// The first argument at or after `from` that is the untyped `empty`, if there is one.
pub open spec fn first_untyped(values: Seq<ValueView>, from: int) -> Option<int>
    decreases values.len() - from,
{
    if from < 0 || from >= values.len() {
        None
    } else if values[from] is Empty {
        Some(from)
    } else {
        first_untyped(values, from + 1)
    }
}

/// A call, once the callee and the arguments have their values.
///
/// The callee must be a function, and must take as many arguments as it
/// is given. For a user function a function scope is entered, each
/// parameter is bound to its argument there, and the body is executed; an
/// argument that is the untyped `empty` has no type to bind.
pub open spec fn evaluate_call(
    m: MachineView,
    callee: ValueView,
    closing_paren: TokenView,
    values: Seq<ValueView>,
) -> Transition {
    match callee {
        ValueView::Function { args, body, .. } => if args.len() != values.len() {
            fault(
                m,
                ErrorType::TypeError,
                closing_paren,
                plain(arity_message(args.len(), values.len())),
            )
        } else if first_untyped(values, 0) is Some {
            fault(
                m,
                ErrorType::RuntimeError,
                closing_paren,
                plain(untyped_message(args[first_untyped(values, 0)->0])),
            )
        } else {
            go(
                MachineView {
                    control: m.control,
                    stack: m.stack.push(FrameView::Call).push(
                        FrameView::Block { statements: body, next: 0, scoped: false },
                    ),
                    scopes: with_arguments(entered(m.scopes, true), args, values, args.len()),
                },
                ControlView::Deliver(ValueView::Empty),
            )
        },
        ValueView::NativeFunction { args, body, .. } => if args.len() != values.len() {
            fault(
                m,
                ErrorType::TypeError,
                closing_paren,
                plain(arity_message(args.len(), values.len())),
            )
        } else {
            call_native(
                m,
                body,
                if values.len() > 0 {
                    values[0]
                } else {
                    ValueView::Empty
                },
            )
        },
        _ => fault(m, ErrorType::TypeError, closing_paren, plain("Expression not callable"@)),
    }
}

/// The length of a text in bytes, as UTF-8 encodes it.
pub open spec fn byte_length(text: Seq<char>) -> u64 {
    (vstd::utf8::encode_utf8(text).len() as usize) as u64
}

/// The note that a function of the host writes when its argument is no string.
pub open spec fn string_only(name: Seq<char>) -> Seq<char> {
    "error: `"@ + name + "` can only take a string as argument"@
}

/// A call of a function of the host, with its first argument.
pub open spec fn call_native(m: MachineView, native: Native, argument: ValueView) -> Transition {
    match native {
        Native::Out => go(
            m,
            ControlView::Compose {
                done: Seq::empty(),
                rest: seq![argument.shown()],
                then: ThenView::Output(ValueView::Empty),
            },
        ),
        Native::Ask => match argument {
            ValueView::String(prompt) => ask(m, ControlView::AwaitString, ActionView::Ask(prompt)),
            _ => ask(
                m,
                ControlView::AwaitOutput(ValueView::String(Seq::empty())),
                ActionView::Output(string_only("ask"@)),
            ),
        },
        Native::Size => match argument {
            ValueView::String(text) => ask(
                m,
                ControlView::AwaitNumber,
                ActionView::FromInteger(byte_length(text)),
            ),
            _ => ask(
                m,
                ControlView::AwaitOutput(ValueView::Number(ZERO)),
                ActionView::Output(string_only("size"@)),
            ),
        },
        Native::Time => ask(m, ControlView::AwaitNumber, ActionView::Time),
        Native::Cmd => match argument {
            ValueView::String(command) => if words(command).len() == 0 {
                go(m, ControlView::Deliver(ValueView::String(Seq::empty())))
            } else {
                ask(
                    m,
                    ControlView::AwaitString,
                    ActionView::Command {
                        program: words(command)[0],
                        arguments: words(command).skip(1),
                    },
                )
            },
            _ => ask(
                m,
                ControlView::AwaitOutput(ValueView::String(Seq::empty())),
                ActionView::Output(string_only("cmd"@)),
            ),
        },
    }
}

/// A text that is put together takes its next piece, or is complete.
pub open spec fn compose(
    m: MachineView,
    done: Seq<char>,
    rest: Seq<PieceView>,
    then: ThenView,
) -> Transition {
    if rest.len() == 0 {
        match then {
            ThenView::Finish => Transition {
                machine: MachineView { control: ControlView::Idle, stack: m.stack, scopes: m.scopes },
                action: Some(ActionView::Finished(done)),
            },
            ThenView::Output(value) => ask(
                m,
                ControlView::AwaitOutput(value),
                ActionView::Output(done),
            ),
            ThenView::Fail { error_type, line, column } => Transition {
                machine: halted(m),
                action: Some(
                    ActionView::Failed(
                        ErrorDetailsView { error_type, message: done, line, column },
                    ),
                ),
            },
        }
    } else {
        match rest[0] {
            PieceView::Text(text) => go(
                m,
                ControlView::Compose { done: done + text, rest: rest.skip(1), then },
            ),
            PieceView::Number(bits) => ask(
                m,
                ControlView::AwaitText { done, rest: rest.skip(1), then },
                ActionView::RenderNumber(bits),
            ),
        }
    }
}

/// The error that ends the evaluation when the host's reply is not of
/// the kind that was asked for.
pub open spec fn protocol_error() -> ErrorDetailsView {
    ErrorDetailsView {
        error_type: ErrorType::RuntimeError,
        message: "The host's reply does not answer the request"@,
        line: 0,
        column: 0,
    }
}

/// The evaluation ends because the host's reply is not of the kind that was asked for.
pub open spec fn refuse(m: MachineView) -> Transition {
    Transition { machine: halted(m), action: Some(ActionView::Failed(protocol_error())) }
}

/// The machine with its control taken out, ready for the next one.
pub open spec fn taken(m: MachineView) -> MachineView {
    MachineView { control: ControlView::Idle, stack: m.stack, scopes: m.scopes }
}

/// One step of the machine. The event counts only where the machine waits for the host.
pub open spec fn step(m: MachineView, event: EventView) -> Transition {
    let base = taken(m);
    match m.control {
        ControlView::Idle => Transition {
            machine: base,
            action: Some(ActionView::Finished(Seq::empty())),
        },
        ControlView::Execute(statement) => execute(base, statement),
        ControlView::Evaluate(expr) => evaluate(base, expr),
        ControlView::Deliver(value) => deliver(base, value),
        ControlView::Unwind { value, anchor } => unwind(base, value, anchor),
        ControlView::Compose { done, rest, then } => compose(base, done, rest, then),
        ControlView::AwaitText { done, rest, then } => match event {
            EventView::Text(text) => go(
                base,
                ControlView::Compose { done: done + text, rest, then },
            ),
            _ => refuse(base),
        },
        ControlView::AwaitNumber => match event {
            EventView::Number(bits) => go(base, ControlView::Deliver(ValueView::Number(bits))),
            _ => refuse(base),
        },
        ControlView::AwaitString => match event {
            EventView::Text(text) => go(base, ControlView::Deliver(ValueView::String(text))),
            _ => refuse(base),
        },
        ControlView::AwaitOutput(value) => go(base, ControlView::Deliver(value)),
    }
}

/// Steps until the machine asks something of the host, and at most
/// `budget` steps after the first; then the machine is paused.
pub open spec fn run(m: MachineView, event: EventView, budget: nat) -> Transition
    decreases budget,
{
    let first = step(m, event);
    if first.action is Some {
        first
    } else if budget == 0 {
        Transition { machine: first.machine, action: Some(ActionView::Paused) }
    } else {
        run(first.machine, EventView::Resume, (budget - 1) as nat)
    }
}

/// The machine with a program loaded: ready to execute its first
/// statement, with the global scope as the only one.
pub open spec fn loaded(m: MachineView, statements: Seq<StatementView>) -> MachineView {
    MachineView {
        control: ControlView::Deliver(ValueView::Empty),
        stack: seq![FrameView::Program { statements, next: 0 }],
        scopes: m.scopes.take(1),
    }
}

} // verus!
