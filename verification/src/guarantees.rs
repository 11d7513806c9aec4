//! What holds of every evaluation: how values compare, when operands are
//! evaluated, how a `return` and a call end, and what the machine keeps true
//! from step to step.

use crate::ast::{
    all_well_formed, is_binary_operator, is_literal, is_unary_operator, ExprView, StatementView,
};
use crate::environment::{assigned, bound, entered, holder, left, lookup, typed, ScopeView};
use crate::errors::{ErrorDetailsView, ErrorType};
use crate::semantics::{
    arity_message, decides, deliver, evaluate, evaluate_binary, evaluate_binary_logic,
    evaluate_call, evaluate_equality, evaluate_math_operation, execute, fault, first_untyped, go,
    lexemes, loaded, not_an_operator, plain, popped, pushed, run, step, taken, with_arguments,
    ActionView, ControlView, EventView, FrameView, MachineView, Operation, ThenView,
};
use crate::token::{Kind, TokenView};
use crate::value::ValueView;
use vstd::prelude::*;

verus! {

/// `==` and `!=` are defined between any two values: the operator
/// delivers a boolean, whatever its operands are.
pub proof fn equality_is_total(
    m: MachineView,
    operator: TokenView,
    left: ValueView,
    right: ValueView,
)
    requires
        operator.kind == Kind::EqualEqual || operator.kind == Kind::BangEqual,
    ensures
        evaluate_binary(m, operator, left, right) == go(
            m,
            ControlView::Deliver(evaluate_equality(left, operator.kind, right)),
        ),
        evaluate_equality(left, operator.kind, right) is Boolean,
        evaluate_equality(left, Kind::BangEqual, right) == ValueView::Boolean(
            evaluate_equality(left, Kind::EqualEqual, right) != ValueView::Boolean(true),
        ),
{
}

/// A boolean, a number or a string equals itself: `v == v` is `true`
/// and `v != v` is `false`. The one exception is the number that is not a
/// number (NaN), which equals nothing.
pub proof fn value_equals_itself(v: ValueView)
    requires
        v is Boolean || v is Number || v is String,
        v is Number ==> !crate::number::spec_is_nan(v->Number_0),
    ensures
        evaluate_equality(v, Kind::EqualEqual, v) == ValueView::Boolean(true),
        evaluate_equality(v, Kind::BangEqual, v) == ValueView::Boolean(false),
{
}

/// Two holes are equal if and only if they have the same type, and every
/// hole equals the untyped `empty`, whichever side it stands on.
pub proof fn holes_compare_by_type(first: ValueView, second: ValueView)
    requires
        first is EmptyBoolean || first is EmptyNumber,
        second is EmptyBoolean || second is EmptyNumber,
    ensures
        evaluate_equality(first, Kind::EqualEqual, second) == ValueView::Boolean(
            first.get_type() == second.get_type(),
        ),
        evaluate_equality(first, Kind::BangEqual, second) == ValueView::Boolean(
            first.get_type() != second.get_type(),
        ),
        evaluate_equality(first, Kind::EqualEqual, ValueView::Empty) == ValueView::Boolean(true),
        evaluate_equality(ValueView::Empty, Kind::EqualEqual, first) == ValueView::Boolean(true),
        evaluate_equality(first, Kind::BangEqual, ValueView::Empty) == ValueView::Boolean(false),
        evaluate_equality(ValueView::Empty, Kind::BangEqual, first) == ValueView::Boolean(false),
{
}

/// `and` and `or` evaluate their right operand if and only if the left
/// one does not decide. Where it decides, the result is there at once:
/// `false` for `and`, `true` for `or`. Where it does not, the right operand
/// is evaluated next, and the result is whether its value is `true`.
pub proof fn logic_short_circuits(
    m: MachineView,
    operator: TokenView,
    right: ExprView,
    left: ValueView,
    value: ValueView,
)
    requires
        operator.kind == Kind::And || operator.kind == Kind::Or,
    ensures
        decides(operator.kind, left) ==> evaluate_binary_logic(m, operator, right, left) == go(
            m,
            ControlView::Deliver(ValueView::Boolean(operator.kind == Kind::Or)),
        ),
        !decides(operator.kind, left) ==> evaluate_binary_logic(m, operator, right, left) == go(
            pushed(m, FrameView::LogicRight),
            ControlView::Evaluate(right),
        ),
        deliver(pushed(m, FrameView::LogicRight), value) == go(
            m,
            ControlView::Deliver(ValueView::Boolean(value.is_true())),
        ),
{
    assert(pushed(m, FrameView::LogicRight).stack.drop_last() =~= m.stack);
}

/// Whether a transition starts the message of an error of `error_type`
/// at `token` and leaves stack and scopes as they are.
pub open spec fn is_fault(
    t: crate::semantics::Transition,
    m: MachineView,
    error_type: ErrorType,
    token: TokenView,
) -> bool {
    &&& t.action is None
    &&& t.machine.stack == m.stack
    &&& t.machine.scopes == m.scopes
    &&& t.machine.control is Compose
    &&& t.machine.control->Compose_done == Seq::<char>::empty()
    &&& t.machine.control->Compose_then == (ThenView::Fail {
        error_type,
        line: token.line,
        column: token.column,
    })
}

/// Arithmetic takes two numbers, two strings under `+`, or a string and a
/// number under `*`. Every other pairing of operands is a type error at the
/// operator.
pub proof fn mixed_arithmetic_is_a_type_error(
    m: MachineView,
    operator: TokenView,
    operation: Operation,
    left: ValueView,
    right: ValueView,
)
    requires
        !(left is Number && right is Number),
        !(left is String && right is String && operation == Operation::Add),
        !(left is String && right is Number && operation == Operation::Multiply),
    ensures
        is_fault(
            evaluate_math_operation(m, operator, operation, left, right),
            m,
            ErrorType::TypeError,
            operator,
        ),
{
}

/// A string times a number that is negative, has a fractional part or is
/// no number is a runtime error at the operator; times any other number it
/// is the string, repeated.
pub proof fn repetition_needs_a_whole_count(
    m: MachineView,
    operator: TokenView,
    text: Seq<char>,
    count: u64,
)
    ensures
        ({
            let t = evaluate_math_operation(
                m,
                operator,
                Operation::Multiply,
                ValueView::String(text),
                ValueView::Number(count),
            );
            match crate::number::spec_repetitions(count) {
                Some(times) => t == go(
                    m,
                    ControlView::Deliver(
                        ValueView::String(crate::text::repeated(text, times as nat)),
                    ),
                ),
                None => is_fault(t, m, ErrorType::RuntimeError, operator),
            }
        }),
{
}

/// The machine after `count` steps that ask nothing of the host; nothing
/// if one of them does.
pub open spec fn quiet_steps(m: MachineView, count: nat) -> Option<MachineView>
    decreases count,
{
    if count == 0 {
        Some(m)
    } else {
        let first = step(m, EventView::Resume);
        if first.action is Some {
            None
        } else {
            quiet_steps(first.machine, (count - 1) as nat)
        }
    }
}

/// The scopes that are left when the blocks among `frames` have ended, from the top one down.
pub open spec fn without_blocks(scopes: Seq<ScopeView>, frames: Seq<FrameView>) -> Seq<ScopeView>
    decreases frames.len(),
{
    if frames.len() == 0 {
        scopes
    } else {
        without_blocks(
            match frames.last() {
                FrameView::Block { scoped: true, .. } => left(scopes),
                _ => scopes,
            },
            frames.drop_last(),
        )
    }
}

/// A `return` leaves every block between it and the call, however many
/// there are, and ends the call: the frames above the call are dropped, the
/// scopes of the blocks among them and the scope of the call end, and the
/// call has the returned value.
pub proof fn return_ends_the_call(
    m: MachineView,
    value: ValueView,
    anchor: TokenView,
    base: Seq<FrameView>,
    above: Seq<FrameView>,
)
    requires
        m.control == (ControlView::Unwind { value, anchor }),
        m.stack == base.push(FrameView::Call) + above,
        forall|i: int|
            0 <= i < above.len() ==> !(#[trigger] above[i] is Call) && !(above[i] is Program),
    ensures
        quiet_steps(m, above.len() + 1) == Some(
            MachineView {
                control: ControlView::Deliver(value),
                stack: base,
                scopes: left(without_blocks(m.scopes, above)),
            },
        ),
    decreases above.len(),
{
    let first = step(m, EventView::Resume);
    if above.len() == 0 {
        assert(m.stack =~= base.push(FrameView::Call));
        assert(m.stack.drop_last() =~= base);
        assert(quiet_steps(first.machine, 0) == Some(first.machine));
    } else {
        assert(m.stack.last() == above.last());
        assert(m.stack.drop_last() =~= base.push(FrameView::Call) + above.drop_last());
        return_ends_the_call(first.machine, value, anchor, base, above.drop_last());
    }
}

/// A call whose body comes to its end without a `return` has the untyped
/// `empty` as its value, and its scope ends.
pub proof fn call_without_return_is_empty(
    m: MachineView,
    last: ValueView,
    base: Seq<FrameView>,
    body: Seq<StatementView>,
)
    requires
        m.control == ControlView::Deliver(last),
        m.stack == base.push(FrameView::Call).push(
            FrameView::Block { statements: body, next: body.len(), scoped: false },
        ),
    ensures
        quiet_steps(m, 2) == Some(
            MachineView {
                control: ControlView::Deliver(ValueView::Empty),
                stack: base,
                scopes: left(m.scopes),
            },
        ),
{
    let first = step(m, EventView::Resume);
    assert(m.stack.drop_last() =~= base.push(FrameView::Call));
    assert(first.machine.stack.drop_last() =~= base);
    let second = step(first.machine, EventView::Resume);
    assert(quiet_steps(second.machine, 0) == Some(second.machine));
    assert(quiet_steps(first.machine, 1) == Some(second.machine));
}

/// A call with the wrong number of arguments is a type error at the
/// closing parenthesis, whose message gives the number of arguments that
/// the function takes and the number that it was given.
pub proof fn wrong_arity_is_a_type_error(
    m: MachineView,
    callee: ValueView,
    closing_paren: TokenView,
    values: Seq<ValueView>,
    budget: nat,
)
    requires
        callee is Function || callee is NativeFunction,
        callee.get_type() != Some(crate::value::ValueType::Function(values.len() as usize)),
        values.len() <= usize::MAX,
        budget >= 1,
    ensures
        ({
            let expected = match callee {
                ValueView::Function { args, .. } => args.len(),
                ValueView::NativeFunction { args, .. } => args.len(),
                _ => 0,
            };
            let called = evaluate_call(m, callee, closing_paren, values);
            &&& called.action is None
            &&& run(called.machine, EventView::Resume, budget).action == Some(
                ActionView::Failed(
                    ErrorDetailsView {
                        error_type: ErrorType::TypeError,
                        message: arity_message(expected, values.len()),
                        line: closing_paren.line,
                        column: closing_paren.column,
                    },
                ),
            )
        }),
{
    let expected = match callee {
        ValueView::Function { args, .. } => args.len(),
        ValueView::NativeFunction { args, .. } => args.len(),
        _ => 0,
    };
    let message = arity_message(expected, values.len());
    let called = evaluate_call(m, callee, closing_paren, values);
    assert(called == fault(m, ErrorType::TypeError, closing_paren, plain(message)));
    let first = step(called.machine, EventView::Resume);
    assert(plain(message).skip(1) =~= Seq::empty());
    assert(Seq::<char>::empty() + message =~= message);
    let second = step(first.machine, EventView::Resume);
    assert(second.action is Some);
    assert(run(first.machine, EventView::Resume, (budget - 1) as nat) == second);
}

/// Whether a frame has a scope of its own: a call has one, and so has a block that is scoped.
pub open spec fn has_scope(frame: FrameView) -> bool {
    match frame {
        FrameView::Call => true,
        FrameView::Block { scoped: true, .. } => true,
        _ => false,
    }
}

/// How many of the frames have a scope of their own.
pub open spec fn scopes_of(frames: Seq<FrameView>) -> nat
    decreases frames.len(),
{
    if frames.len() == 0 {
        0
    } else {
        scopes_of(frames.drop_last()) + if has_scope(frames.last()) {
            1nat
        } else {
            0nat
        }
    }
}

/// Whether the scopes match the frames: above the global scope there
/// is one scope for each frame that has one, and no other.
pub open spec fn balanced(m: MachineView) -> bool {
    m.scopes.len() == 1 + scopes_of(m.stack)
}

/// One more frame has one more scope, if the frame has one.
pub proof fn scopes_of_push(frames: Seq<FrameView>, frame: FrameView)
    ensures
        scopes_of(frames.push(frame)) == scopes_of(frames) + if has_scope(frame) {
            1nat
        } else {
            0nat
        },
{
    assert(frames.push(frame).drop_last() =~= frames);
}

/// Binding arguments adds no scope.
pub proof fn with_arguments_keeps_scopes(
    scopes: Seq<ScopeView>,
    args: Seq<Seq<char>>,
    values: Seq<ValueView>,
    count: nat,
)
    requires
        scopes.len() >= 1,
    ensures
        with_arguments(scopes, args, values, count).len() == scopes.len(),
    decreases count,
{
    if count > 0 {
        with_arguments_keeps_scopes(scopes, args, values, (count - 1) as nat);
    }
}

/// Scopes are entered and left in step with the frames they belong to: if
/// the scopes match the frames before a step, they match them after it.
/// So a scope ends exactly when its block or its call ends, whether by
/// coming to its end, by a `return` or by an error.
pub proof fn step_keeps_balance(m: MachineView, event: EventView)
    requires
        balanced(m),
    ensures
        balanced(step(m, event).machine),
{
    let base = taken(m);
    let after = step(m, event).machine;
    assert(scopes_of(Seq::<FrameView>::empty()) == 0);
    assert(m.scopes.take(1).len() == 1);
    match m.control {
        ControlView::Execute(statement) => {
            match statement {
                StatementView::Assignment { ident, .. } => {
                    scopes_of_push(m.stack, FrameView::Assign { ident });
                },
                StatementView::Block { statements } => {
                    scopes_of_push(
                        m.stack,
                        FrameView::Block { statements, next: 0, scoped: true },
                    );
                },
                StatementView::If { condition, then, otherwise } => {
                    scopes_of_push(m.stack, after.stack.last());
                    assert(after.stack =~= m.stack.push(after.stack.last()));
                },
                StatementView::While { condition, body } => {
                    scopes_of_push(m.stack, FrameView::WhileCondition { condition, body: *body });
                },
                StatementView::Return { expr } => {
                    scopes_of_push(m.stack, FrameView::Return { anchor: expr.first_token() });
                },
                _ => {},
            }
        },
        ControlView::Evaluate(expr) => {
            match expr {
                ExprView::Unary { operator, .. } => {
                    scopes_of_push(m.stack, FrameView::Unary { operator });
                },
                ExprView::Binary { operator, right_expr, .. } => {
                    scopes_of_push(m.stack, FrameView::BinaryLeft { operator, right: *right_expr });
                },
                ExprView::Call { closing_paren, arguments, .. } => {
                    scopes_of_push(m.stack, FrameView::Callee { closing_paren, arguments });
                },
                _ => {},
            }
        },
        ControlView::Deliver(value) => {
            if m.stack.len() > 0 {
                deliver_keeps_balance(base, value);
            }
        },
        ControlView::Unwind { value, anchor } => {
            if m.stack.len() > 0 {
                let below = m.stack.drop_last();
                assert(scopes_of(m.stack) == scopes_of(below) + if has_scope(m.stack.last()) {
                    1nat
                } else {
                    0nat
                });
            }
        },
        _ => {},
    }
}

/// A value that is delivered keeps the scopes in step with the frames.
pub proof fn deliver_keeps_balance(m: MachineView, value: ValueView)
    requires
        balanced(m),
        m.stack.len() > 0,
    ensures
        balanced(deliver(m, value).machine),
{
    let below = m.stack.drop_last();
    let rest = popped(m);
    let after = deliver(m, value).machine;
    assert(scopes_of(m.stack) == scopes_of(below) + if has_scope(m.stack.last()) {
        1nat
    } else {
        0nat
    });
    match m.stack.last() {
        FrameView::Program { statements, next } => {
            scopes_of_push(below, FrameView::Program { statements, next: next + 1 });
        },
        FrameView::Block { statements, next, scoped: has_scope } => {
            scopes_of_push(
                below,
                FrameView::Block { statements, next: next + 1, scoped: has_scope },
            );
        },
        FrameView::Assign { ident } => {
            if assigned(rest.scopes, ident.lexeme, value, false) is Ok {
                crate::environment::assignment_keeps_outer_names(
                    rest.scopes,
                    ident.lexeme,
                    value,
                    false,
                );
            }
        },
        FrameView::WhileCondition { condition, body } => {
            scopes_of_push(below, FrameView::WhileBody { condition, body });
        },
        FrameView::WhileBody { condition, body } => {
            scopes_of_push(below, FrameView::WhileCondition { condition, body });
        },
        FrameView::BinaryLeft { operator, right } => {
            scopes_of_push(below, FrameView::LogicRight);
            scopes_of_push(below, FrameView::BinaryRight { operator, left: value });
        },
        FrameView::Callee { closing_paren, arguments } => {
            if arguments.len() == 0 {
                call_keeps_balance(rest, value, closing_paren, Seq::empty());
            } else {
                scopes_of_push(
                    below,
                    FrameView::Arguments {
                        callee: value,
                        closing_paren,
                        arguments,
                        values: Seq::empty(),
                    },
                );
            }
        },
        FrameView::Arguments { callee, closing_paren, arguments, values } => {
            if values.len() + 1 < arguments.len() {
                scopes_of_push(
                    below,
                    FrameView::Arguments {
                        callee,
                        closing_paren,
                        arguments,
                        values: values.push(value),
                    },
                );
            } else {
                call_keeps_balance(rest, callee, closing_paren, values.push(value));
            }
        },
        _ => {},
    }
}

/// A call keeps the scopes in step with the frames: the call's frame comes with the call's scope.
pub proof fn call_keeps_balance(
    m: MachineView,
    callee: ValueView,
    closing_paren: TokenView,
    values: Seq<ValueView>,
)
    requires
        balanced(m),
    ensures
        balanced(evaluate_call(m, callee, closing_paren, values).machine),
{
    match callee {
        ValueView::Function { args, body, .. } => {
            scopes_of_push(m.stack, FrameView::Call);
            scopes_of_push(
                m.stack.push(FrameView::Call),
                FrameView::Block { statements: body, next: 0, scoped: false },
            );
            with_arguments_keeps_scopes(entered(m.scopes, true), args, values, args.len());
        },
        _ => {},
    }
}

/// Binding a name to a value that has a type keeps every binding typed.
pub proof fn bound_keeps_types(scopes: Seq<ScopeView>, i: int, name: Seq<char>, value: ValueView)
    requires
        typed(scopes),
        0 <= i < scopes.len(),
        !(value is Empty),
    ensures
        typed(bound(scopes, i, name, value)),
{
    let after = bound(scopes, i, name, value);
    assert forall|j: int, other: Seq<char>|
        0 <= j < after.len() && (#[trigger] after[j].map.dom().contains(other)) implies !(
    after[j].map[other] is Empty) by {
        if scopes[j].map.dom().contains(other) {
            assert(!(scopes[j].map[other] is Empty));
        }
    }
}

/// Entering and leaving a scope keep every binding typed.
pub proof fn scopes_keep_types(scopes: Seq<ScopeView>, function: bool)
    requires
        scopes.len() >= 1,
        typed(scopes),
    ensures
        typed(entered(scopes, function)),
        typed(left(scopes)),
        typed(scopes.take(1)),
{
    let more = entered(scopes, function);
    assert forall|j: int, other: Seq<char>|
        0 <= j < more.len() && (#[trigger] more[j].map.dom().contains(other)) implies !(
    more[j].map[other] is Empty) by {
        if j < scopes.len() {
            assert(scopes[j].map.dom().contains(other));
        }
    }
    let fewer = left(scopes);
    assert forall|j: int, other: Seq<char>|
        0 <= j < fewer.len() && (#[trigger] fewer[j].map.dom().contains(other)) implies !(
    fewer[j].map[other] is Empty) by {
        assert(scopes[j].map.dom().contains(other));
    }
    let first = scopes.take(1);
    assert forall|j: int, other: Seq<char>|
        0 <= j < first.len() && (#[trigger] first[j].map.dom().contains(other)) implies !(
    first[j].map[other] is Empty) by {
        assert(scopes[j].map.dom().contains(other));
    }
}

/// Binding arguments that have types keeps every binding typed.
pub proof fn with_arguments_keeps_types(
    scopes: Seq<ScopeView>,
    args: Seq<Seq<char>>,
    values: Seq<ValueView>,
    count: nat,
)
    requires
        scopes.len() >= 1,
        typed(scopes),
        count <= values.len(),
        forall|j: int| 0 <= j < values.len() ==> !(#[trigger] values[j] is Empty),
    ensures
        typed(with_arguments(scopes, args, values, count)),
    decreases count,
{
    if count > 0 {
        with_arguments_keeps_types(scopes, args, values, (count - 1) as nat);
        with_arguments_keeps_scopes(scopes, args, values, (count - 1) as nat);
        let before = with_arguments(scopes, args, values, (count - 1) as nat);
        bound_keeps_types(before, before.len() - 1, args[count - 1], values[count - 1]);
    }
}

/// Where no argument from `from` on is the untyped `empty`, none of them is.
pub proof fn all_typed(values: Seq<ValueView>, from: int)
    requires
        0 <= from,
        first_untyped(values, from) is None,
    ensures
        forall|j: int| from <= j < values.len() ==> !(#[trigger] values[j] is Empty),
    decreases values.len() - from,
{
    if from < values.len() {
        all_typed(values, from + 1);
    }
}

/// No name is ever bound to the untyped `empty`: if every binding has a
/// type before a step, every binding has one after it.
pub proof fn step_keeps_types(m: MachineView, event: EventView)
    requires
        m.scopes.len() >= 1,
        typed(m.scopes),
    ensures
        typed(step(m, event).machine.scopes),
{
    let base = taken(m);
    scopes_keep_types(m.scopes, true);
    scopes_keep_types(m.scopes, false);
    match m.control {
        ControlView::Execute(statement) => {
            match statement {
                StatementView::FunctionDeclaration { ident, params, body } => {
                    if lookup(m.scopes, ident.lexeme) is None {
                        bound_keeps_types(
                            m.scopes,
                            m.scopes.len() - 1,
                            ident.lexeme,
                            ValueView::Function { name: ident.lexeme, args: lexemes(params), body },
                        );
                    }
                },
                _ => {},
            }
        },
        ControlView::Deliver(value) => {
            if m.stack.len() > 0 {
                match m.stack.last() {
                    FrameView::Assign { ident } => {
                        if assigned(m.scopes, ident.lexeme, value, false) is Ok {
                            crate::environment::assignment_keeps_types(
                                m.scopes,
                                ident.lexeme,
                                value,
                                false,
                            );
                        }
                    },
                    FrameView::Callee { closing_paren, arguments } => {
                        if arguments.len() == 0 {
                            call_keeps_types(popped(base), value, closing_paren, Seq::empty());
                        }
                    },
                    FrameView::Arguments { callee, closing_paren, arguments, values } => {
                        if !(values.len() + 1 < arguments.len()) {
                            call_keeps_types(
                                popped(base),
                                callee,
                                closing_paren,
                                values.push(value),
                            );
                        }
                    },
                    _ => {},
                }
            }
        },
        _ => {},
    }
}

/// A call keeps every binding typed.
pub proof fn call_keeps_types(
    m: MachineView,
    callee: ValueView,
    closing_paren: TokenView,
    values: Seq<ValueView>,
)
    requires
        m.scopes.len() >= 1,
        typed(m.scopes),
    ensures
        typed(evaluate_call(m, callee, closing_paren, values).machine.scopes),
{
    match callee {
        ValueView::Function { args, body, .. } => {
            if args.len() == values.len() && first_untyped(values, 0) is None {
                all_typed(values, 0);
                scopes_keep_types(m.scopes, true);
                with_arguments_keeps_types(entered(m.scopes, true), args, values, args.len());
            }
        },
        _ => {},
    }
}

/// Whether a value is one that the evaluation of parsed programs can
/// yield: the body of a function is well formed.
pub open spec fn value_is_sound(value: ValueView) -> bool {
    match value {
        ValueView::Function { body, .. } => all_well_formed(body),
        _ => true,
    }
}

/// Whether every value of a list is sound.
pub open spec fn values_are_sound(values: Seq<ValueView>) -> bool {
    forall|i: int| 0 <= i < values.len() ==> value_is_sound(#[trigger] values[i])
}

/// Whether every expression of a list is well formed.
pub open spec fn exprs_are_well_formed(exprs: Seq<ExprView>) -> bool {
    forall|i: int| 0 <= i < exprs.len() ==> (#[trigger] exprs[i]).well_formed()
}

/// Whether an operator is one whose operands are both evaluated before it
/// is applied: every binary operator but `and` and `or`.
pub open spec fn is_strict_operator(kind: Kind) -> bool {
    is_binary_operator(kind) && kind != Kind::And && kind != Kind::Or
}

/// Whether a frame holds what the evaluation of parsed programs can put there.
pub open spec fn frame_is_sound(frame: FrameView) -> bool {
    match frame {
        FrameView::Program { statements, .. } => all_well_formed(statements),
        FrameView::Block { statements, .. } => all_well_formed(statements),
        FrameView::If { then, otherwise, .. } => then.well_formed() && match otherwise {
            Some(branch) => branch.well_formed(),
            None => true,
        },
        FrameView::WhileCondition { condition, body } => condition.well_formed()
            && body.well_formed(),
        FrameView::WhileBody { condition, body } => condition.well_formed() && body.well_formed(),
        FrameView::Unary { operator } => is_unary_operator(operator.kind),
        FrameView::BinaryLeft { operator, right } => is_binary_operator(operator.kind)
            && right.well_formed(),
        FrameView::BinaryRight { operator, left } => is_strict_operator(operator.kind)
            && value_is_sound(left),
        FrameView::Callee { arguments, .. } => exprs_are_well_formed(arguments),
        FrameView::Arguments { callee, arguments, values, .. } => value_is_sound(callee)
            && exprs_are_well_formed(arguments) && values_are_sound(values),
        _ => true,
    }
}

/// Whether every frame of a stack is sound.
pub open spec fn frames_are_sound(stack: Seq<FrameView>) -> bool {
    forall|i: int| 0 <= i < stack.len() ==> frame_is_sound(#[trigger] stack[i])
}

/// Whether a control holds what the evaluation of parsed programs can put there.
pub open spec fn control_is_sound(control: ControlView) -> bool {
    match control {
        ControlView::Execute(statement) => statement.well_formed(),
        ControlView::Evaluate(expr) => expr.well_formed(),
        ControlView::Deliver(value) => value_is_sound(value),
        ControlView::Unwind { value, .. } => value_is_sound(value),
        ControlView::Compose { then: ThenView::Output(value), .. } => value_is_sound(value),
        ControlView::AwaitText { then: ThenView::Output(value), .. } => value_is_sound(value),
        ControlView::AwaitOutput(value) => value_is_sound(value),
        _ => true,
    }
}

/// Whether every name is bound to a sound value.
pub open spec fn scopes_are_sound(scopes: Seq<ScopeView>) -> bool {
    forall|i: int, name: Seq<char>|
        0 <= i < scopes.len() && (#[trigger] scopes[i].map.dom().contains(name))
            ==> value_is_sound(scopes[i].map[name])
}

/// Whether a machine holds only syntax trees that a parse can yield.
pub open spec fn sound(m: MachineView) -> bool {
    &&& m.scopes.len() >= 1
    &&& control_is_sound(m.control)
    &&& frames_are_sound(m.stack)
    &&& scopes_are_sound(m.scopes)
}

/// Whether the next step of a machine meets a syntax tree that no parse
/// yields: a literal that is none, or an operator that is none.
pub open spec fn stuck(m: MachineView) -> bool {
    match m.control {
        ControlView::Evaluate(ExprView::Primary { value }) => !is_literal(value.kind),
        ControlView::Deliver(_) => m.stack.len() > 0 && match m.stack.last() {
            FrameView::Unary { operator } => !is_unary_operator(operator.kind),
            FrameView::BinaryRight { operator, .. } => !is_strict_operator(operator.kind),
            _ => false,
        },
        _ => false,
    }
}

/// A machine that is stuck fails with its next step: with a runtime error
/// about the token that is no literal or no operator.
pub proof fn stuck_is_an_error(m: MachineView, event: EventView)
    requires
        stuck(m),
    ensures
        match m.control {
            ControlView::Evaluate(ExprView::Primary { value }) => step(m, event) == fault(
                taken(m),
                ErrorType::RuntimeError,
                value,
                plain("Token `"@ + value.lexeme + "` has no value"@),
            ),
            _ => match m.stack.last() {
                FrameView::Unary { operator } => step(m, event) == fault(
                    popped(taken(m)),
                    ErrorType::RuntimeError,
                    operator,
                    not_an_operator(operator),
                ),
                FrameView::BinaryRight { operator, .. } => step(m, event) == fault(
                    popped(taken(m)),
                    ErrorType::RuntimeError,
                    operator,
                    not_an_operator(operator),
                ),
                _ => true,
            },
        },
{
}

/// A machine that holds only syntax trees that a parse can yield is never stuck.
pub proof fn sound_is_not_stuck(m: MachineView)
    requires
        sound(m),
    ensures
        !stuck(m),
{
    if m.stack.len() > 0 {
        assert(frame_is_sound(m.stack.last()));
    }
}

/// What is bound to a name in sound scopes is sound.
pub proof fn lookup_is_sound(scopes: Seq<ScopeView>, name: Seq<char>)
    requires
        scopes_are_sound(scopes),
    ensures
        lookup(scopes, name) is Some ==> value_is_sound(lookup(scopes, name)->0),
{
    crate::environment::holder_is_innermost(scopes, name);
}

/// Binding a name to a sound value keeps the scopes sound.
pub proof fn bound_keeps_soundness(scopes: Seq<ScopeView>, i: int, name: Seq<char>, value: ValueView)
    requires
        scopes_are_sound(scopes),
        0 <= i < scopes.len(),
        value_is_sound(value),
    ensures
        scopes_are_sound(bound(scopes, i, name, value)),
{
    let after = bound(scopes, i, name, value);
    assert forall|j: int, other: Seq<char>|
        0 <= j < after.len() && (#[trigger] after[j].map.dom().contains(other)) implies value_is_sound(
        after[j].map[other],
    ) by {
        if scopes[j].map.dom().contains(other) {
            assert(value_is_sound(scopes[j].map[other]));
        }
    }
}

/// An assignment of a sound value keeps the scopes sound.
pub proof fn assignment_keeps_soundness(scopes: Seq<ScopeView>, name: Seq<char>, value: ValueView)
    requires
        scopes.len() >= 1,
        scopes_are_sound(scopes),
        value_is_sound(value),
        assigned(scopes, name, value, false) is Ok,
    ensures
        scopes_are_sound(assigned(scopes, name, value, false)->Ok_0),
{
    crate::environment::holder_is_innermost(scopes, name);
    if holder(scopes, name) is Some {
        let i = holder(scopes, name)->0;
        let current = scopes[i].map[name];
        let typed = if value is Empty {
            current.as_empty()->0
        } else {
            value
        };
        bound_keeps_soundness(scopes, i, name, typed);
    } else {
        bound_keeps_soundness(scopes, scopes.len() - 1, name, value);
    }
}

/// Entering and leaving a scope keep the scopes sound.
pub proof fn scopes_keep_soundness(scopes: Seq<ScopeView>, function: bool)
    requires
        scopes.len() >= 1,
        scopes_are_sound(scopes),
    ensures
        scopes_are_sound(entered(scopes, function)),
        scopes_are_sound(left(scopes)),
        scopes_are_sound(scopes.take(1)),
{
    let more = entered(scopes, function);
    assert forall|j: int, other: Seq<char>|
        0 <= j < more.len() && (#[trigger] more[j].map.dom().contains(other)) implies value_is_sound(
        more[j].map[other],
    ) by {
        if j < scopes.len() {
            assert(scopes[j].map.dom().contains(other));
        }
    }
    let fewer = left(scopes);
    assert forall|j: int, other: Seq<char>|
        0 <= j < fewer.len() && (#[trigger] fewer[j].map.dom().contains(other)) implies value_is_sound(
        fewer[j].map[other],
    ) by {
        assert(scopes[j].map.dom().contains(other));
    }
    let first = scopes.take(1);
    assert forall|j: int, other: Seq<char>|
        0 <= j < first.len() && (#[trigger] first[j].map.dom().contains(other)) implies value_is_sound(
        first[j].map[other],
    ) by {
        assert(scopes[j].map.dom().contains(other));
    }
}

/// Binding sound arguments keeps the scopes sound.
pub proof fn with_arguments_keeps_soundness(
    scopes: Seq<ScopeView>,
    args: Seq<Seq<char>>,
    values: Seq<ValueView>,
    count: nat,
)
    requires
        scopes.len() >= 1,
        scopes_are_sound(scopes),
        count <= values.len(),
        values_are_sound(values),
    ensures
        scopes_are_sound(with_arguments(scopes, args, values, count)),
    decreases count,
{
    if count > 0 {
        with_arguments_keeps_soundness(scopes, args, values, (count - 1) as nat);
        with_arguments_keeps_scopes(scopes, args, values, (count - 1) as nat);
        let before = with_arguments(scopes, args, values, (count - 1) as nat);
        bound_keeps_soundness(before, before.len() - 1, args[count - 1], values[count - 1]);
    }
}

/// One more sound frame keeps the stack sound, and so does one frame less.
pub proof fn frames_keep_soundness(stack: Seq<FrameView>, frame: FrameView)
    requires
        frames_are_sound(stack),
    ensures
        frame_is_sound(frame) ==> frames_are_sound(stack.push(frame)),
        stack.len() > 0 ==> frames_are_sound(stack.drop_last()) && frame_is_sound(stack.last()),
{
    if frame_is_sound(frame) {
        let more = stack.push(frame);
        assert forall|i: int| 0 <= i < more.len() implies frame_is_sound(#[trigger] more[i]) by {
            if i < stack.len() {
                assert(frame_is_sound(stack[i]));
            }
        }
    }
    if stack.len() > 0 {
        let fewer = stack.drop_last();
        assert forall|i: int| 0 <= i < fewer.len() implies frame_is_sound(#[trigger] fewer[i]) by {
            assert(frame_is_sound(stack[i]));
        }
    }
}

/// A statement that starts keeps the machine sound.
pub proof fn execute_keeps_soundness(m: MachineView, statement: StatementView)
    requires
        sound(m),
        statement.well_formed(),
    ensures
        sound(execute(m, statement).machine),
{
    let after = execute(m, statement).machine;
    scopes_keep_soundness(m.scopes, m.scopes.last().function);
    match statement {
        StatementView::Assignment { ident, .. } => {
            frames_keep_soundness(m.stack, FrameView::Assign { ident });
        },
        StatementView::Block { statements } => {
            frames_keep_soundness(
                m.stack,
                FrameView::Block { statements, next: 0, scoped: true },
            );
        },
        StatementView::If { condition, then, otherwise } => {
            frames_keep_soundness(
                m.stack,
                FrameView::If {
                    then: *then,
                    otherwise: match otherwise {
                        Some(branch) => Some(*branch),
                        None => None,
                    },
                    anchor: condition.first_token(),
                },
            );
        },
        StatementView::While { condition, body } => {
            frames_keep_soundness(m.stack, FrameView::WhileCondition { condition, body: *body });
        },
        StatementView::FunctionDeclaration { ident, params, body } => {
            if lookup(m.scopes, ident.lexeme) is None {
                bound_keeps_soundness(
                    m.scopes,
                    m.scopes.len() - 1,
                    ident.lexeme,
                    ValueView::Function { name: ident.lexeme, args: lexemes(params), body },
                );
            }
        },
        StatementView::Return { expr } => {
            frames_keep_soundness(m.stack, FrameView::Return { anchor: expr.first_token() });
        },
        _ => {},
    }
}

/// An expression that starts keeps the machine sound.
pub proof fn evaluate_keeps_soundness(m: MachineView, expr: ExprView)
    requires
        sound(m),
        expr.well_formed(),
    ensures
        sound(evaluate(m, expr).machine),
{
    match expr {
        ExprView::Unary { operator, .. } => {
            frames_keep_soundness(m.stack, FrameView::Unary { operator });
        },
        ExprView::Binary { operator, right_expr, .. } => {
            frames_keep_soundness(m.stack, FrameView::BinaryLeft { operator, right: *right_expr });
        },
        ExprView::Variable { name } => {
            lookup_is_sound(m.scopes, name.lexeme);
        },
        ExprView::Call { closing_paren, arguments, .. } => {
            frames_keep_soundness(m.stack, FrameView::Callee { closing_paren, arguments });
        },
        _ => {},
    }
}

/// A call keeps the machine sound.
pub proof fn call_keeps_soundness(
    m: MachineView,
    callee: ValueView,
    closing_paren: TokenView,
    values: Seq<ValueView>,
)
    requires
        sound(m),
        value_is_sound(callee),
        values_are_sound(values),
    ensures
        sound(evaluate_call(m, callee, closing_paren, values).machine),
{
    match callee {
        ValueView::Function { args, body, .. } => {
            if args.len() == values.len() && first_untyped(values, 0) is None {
                scopes_keep_soundness(m.scopes, true);
                with_arguments_keeps_soundness(entered(m.scopes, true), args, values, args.len());
                with_arguments_keeps_scopes(entered(m.scopes, true), args, values, args.len());
                frames_keep_soundness(m.stack, FrameView::Call);
                frames_keep_soundness(
                    m.stack.push(FrameView::Call),
                    FrameView::Block { statements: body, next: 0, scoped: false },
                );
            }
        },
        _ => {},
    }
}

/// A value that is delivered keeps the machine sound.
pub proof fn deliver_keeps_soundness(m: MachineView, value: ValueView)
    requires
        sound(m),
        value_is_sound(value),
        m.stack.len() > 0,
    ensures
        sound(deliver(m, value).machine),
{
    let below = m.stack.drop_last();
    let rest = popped(m);
    frames_keep_soundness(m.stack, FrameView::Call);
    scopes_keep_soundness(m.scopes, false);
    match m.stack.last() {
        FrameView::Program { statements, next } => {
            frames_keep_soundness(below, FrameView::Program { statements, next: next + 1 });
        },
        FrameView::Block { statements, next, scoped: has_scope } => {
            frames_keep_soundness(
                below,
                FrameView::Block { statements, next: next + 1, scoped: has_scope },
            );
        },
        FrameView::Assign { ident } => {
            if assigned(m.scopes, ident.lexeme, value, false) is Ok {
                assignment_keeps_soundness(m.scopes, ident.lexeme, value);
                crate::environment::assignment_keeps_outer_names(
                    m.scopes,
                    ident.lexeme,
                    value,
                    false,
                );
            }
        },
        FrameView::WhileCondition { condition, body } => {
            frames_keep_soundness(below, FrameView::WhileBody { condition, body });
        },
        FrameView::WhileBody { condition, body } => {
            frames_keep_soundness(below, FrameView::WhileCondition { condition, body });
        },
        FrameView::BinaryLeft { operator, right } => {
            frames_keep_soundness(below, FrameView::LogicRight);
            if operator.kind != Kind::And && operator.kind != Kind::Or {
                frames_keep_soundness(below, FrameView::BinaryRight { operator, left: value });
            }
        },
        FrameView::Callee { closing_paren, arguments } => {
            if arguments.len() == 0 {
                call_keeps_soundness(rest, value, closing_paren, Seq::empty());
            } else {
                frames_keep_soundness(
                    below,
                    FrameView::Arguments {
                        callee: value,
                        closing_paren,
                        arguments,
                        values: Seq::empty(),
                    },
                );
            }
        },
        FrameView::Arguments { callee, closing_paren, arguments, values } => {
            let more = values.push(value);
            assert forall|i: int| 0 <= i < more.len() implies value_is_sound(
                #[trigger] more[i],
            ) by {
                if i < values.len() {
                    assert(value_is_sound(values[i]));
                }
            }
            if values.len() + 1 < arguments.len() {
                frames_keep_soundness(
                    below,
                    FrameView::Arguments { callee, closing_paren, arguments, values: more },
                );
            } else {
                call_keeps_soundness(rest, callee, closing_paren, more);
            }
        },
        _ => {},
    }
}

/// A machine that holds only syntax trees that a parse can yield goes on
/// holding only such trees: the errors for others never occur.
pub proof fn step_keeps_soundness(m: MachineView, event: EventView)
    requires
        sound(m),
    ensures
        sound(step(m, event).machine),
{
    let base = taken(m);
    scopes_keep_soundness(m.scopes, false);
    frames_keep_soundness(m.stack, FrameView::Call);
    assert(frames_are_sound(Seq::<FrameView>::empty()));
    match m.control {
        ControlView::Execute(statement) => {
            execute_keeps_soundness(base, statement);
        },
        ControlView::Evaluate(expr) => {
            evaluate_keeps_soundness(base, expr);
        },
        ControlView::Deliver(value) => {
            if m.stack.len() > 0 {
                deliver_keeps_soundness(base, value);
            }
        },
        _ => {},
    }
}

/// What holds of a machine at every moment: the scopes match the
/// frames, no name is bound to the untyped `empty`, and every syntax tree
/// in the machine is one that a parse can yield.
pub open spec fn consistent(m: MachineView) -> bool {
    balanced(m) && typed(m.scopes) && sound(m)
}

/// A step keeps the machine consistent.
pub proof fn step_keeps_consistency(m: MachineView, event: EventView)
    requires
        consistent(m),
    ensures
        consistent(step(m, event).machine),
{
    step_keeps_balance(m, event);
    step_keeps_types(m, event);
    step_keeps_soundness(m, event);
}

/// However long the machine runs, it stays consistent.
pub proof fn run_keeps_consistency(m: MachineView, event: EventView, budget: nat)
    requires
        consistent(m),
    ensures
        consistent(run(m, event, budget).machine),
    decreases budget,
{
    step_keeps_consistency(m, event);
    let first = step(m, event);
    if first.action is None && budget > 0 {
        run_keeps_consistency(first.machine, EventView::Resume, (budget - 1) as nat);
    }
}

/// Loading a program that a parse has yielded keeps the machine
/// consistent; the global scope is then the only one.
pub proof fn loading_keeps_consistency(m: MachineView, statements: Seq<StatementView>)
    requires
        consistent(m),
        all_well_formed(statements),
    ensures
        consistent(loaded(m, statements)),
        loaded(m, statements).scopes.len() == 1,
{
    let stack = seq![FrameView::Program { statements, next: 0 }];
    assert(stack.drop_last() =~= Seq::<FrameView>::empty());
    assert(scopes_of(stack.drop_last()) == 0);
    scopes_keep_types(m.scopes, false);
    scopes_keep_soundness(m.scopes, false);
}

} // verus!
