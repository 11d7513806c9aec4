//! The scope of a block, step by step: from the step that starts a block
//! to the step that takes its frame off the stack, whatever the host
//! replies in between, the scopes below the block's own keep their names.
//! A name that the block introduces ends with the block; what the block
//! assigns to a name of a scope below stays, since only an assignment
//! changes a scope below the top one and the end of the block takes
//! nothing but the block's own scope.

use crate::ast::StatementView;
use crate::environment::{
    assigned, assignment_keeps_outer_names, bound, entered, holder_by_names, holder_is_innermost,
    left, lookup, same_names, ScopeView,
};
use crate::guarantees::{balanced, has_scope, scopes_of, step_keeps_balance};
use crate::semantics::{
    evaluate_call, first_untyped, halted, step, with_arguments, ControlView, EventView, FrameView,
    MachineView,
};
use crate::token::TokenView;
use crate::value::ValueView;
use vstd::prelude::*;

verus! {

/// Whether a frame is that of a block with a scope of its own.
pub open spec fn is_scoped_block(frame: FrameView) -> bool {
    match frame {
        FrameView::Block { scoped, .. } => scoped,
        _ => false,
    }
}

/// Whether the step of `m` ends the evaluation with an error: the machine
/// is then halted.
pub open spec fn fails(m: MachineView, event: EventView) -> bool {
    step(m, event).machine == halted(m) && step(m, event).action is Some
}

/// A step touches the top of the stack only. Unless it ends the
/// evaluation with an error, it leaves the stack as it is or puts frames on
/// it, or it takes the top frame off and may put others in its place.
pub proof fn step_touches_the_top_frame(m: MachineView, event: EventView)
    ensures
        ({
            let next = step(m, event).machine;
            let depth = m.stack.len() as int;
            ||| fails(m, event)
            ||| next.stack.len() >= depth && next.stack.take(depth) == m.stack
            ||| (m.control is Deliver || m.control is Unwind) && depth > 0 && next.stack.len()
                >= depth - 1 && next.stack.take(depth - 1) == m.stack.drop_last()
        }),
{
    let stack = m.stack;
    let depth = stack.len() as int;
    assert(stack.take(depth) =~= stack);
    assert forall|f: FrameView| (#[trigger] stack.push(f)).take(depth) == stack by {
        assert(stack.push(f).take(depth) =~= stack);
    }
    if depth > 0 {
        let below = stack.drop_last();
        assert(below.take(depth - 1) =~= below);
        assert forall|f: FrameView| (#[trigger] below.push(f)).take(depth - 1) == below by {
            assert(below.push(f).take(depth - 1) =~= below);
        }
        assert forall|f: FrameView, g: FrameView|
            (#[trigger] below.push(f).push(g)).take(depth - 1) == below by {
            assert(below.push(f).push(g).take(depth - 1) =~= below);
        }
    }
}

/// With the frame of a block on top, a step leaves the stack as it is or
/// puts frames on it, takes the block's frame off, or puts the frame of the
/// same block in its place.
pub proof fn step_with_a_block_on_top(m: MachineView, event: EventView)
    requires
        m.stack.len() > 0,
        m.stack.last() is Block,
    ensures
        ({
            let next = step(m, event).machine;
            let depth = m.stack.len() as int;
            ||| fails(m, event)
            ||| next.stack.len() >= depth && next.stack.take(depth) == m.stack
            ||| next.stack == m.stack.drop_last()
            ||| next.stack.len() == depth && next.stack.drop_last() == m.stack.drop_last()
                && is_scoped_block(next.stack.last()) == is_scoped_block(m.stack.last())
        }),
{
    let stack = m.stack;
    let depth = stack.len() as int;
    let below = stack.drop_last();
    assert(stack.take(depth) =~= stack);
    assert forall|f: FrameView| (#[trigger] stack.push(f)).take(depth) == stack by {
        assert(stack.push(f).take(depth) =~= stack);
    }
    assert forall|f: FrameView| (#[trigger] below.push(f)).drop_last() == below by {
        assert(below.push(f).drop_last() =~= below);
    }
}

/// Binding a name in a scope leaves the names of every other scope as they are.
pub proof fn bound_keeps_other_names(scopes: Seq<ScopeView>, i: int, name: Seq<char>, value: ValueView)
    requires
        0 <= i < scopes.len(),
    ensures
        bound(scopes, i, name, value).len() == scopes.len(),
        forall|j: int|
            0 <= j < scopes.len() && j != i ==> (#[trigger] bound(scopes, i, name, value)[j])
                == scopes[j],
{
}

/// Binding arguments leaves every scope but the top one as it is.
pub proof fn with_arguments_keeps_lower_scopes(
    scopes: Seq<ScopeView>,
    args: Seq<Seq<char>>,
    values: Seq<ValueView>,
    count: nat,
)
    requires
        scopes.len() >= 1,
    ensures
        with_arguments(scopes, args, values, count).len() == scopes.len(),
        forall|j: int|
            0 <= j < scopes.len() - 1 ==> (#[trigger] with_arguments(scopes, args, values, count)[j])
                == scopes[j],
    decreases count,
{
    if count > 0 {
        with_arguments_keeps_lower_scopes(scopes, args, values, (count - 1) as nat);
        let before = with_arguments(scopes, args, values, (count - 1) as nat);
        bound_keeps_other_names(before, before.len() - 1, args[count - 1], values[count - 1]);
    }
}

/// Whether `after` binds, in every scope below the top one of `before`,
/// the names that `before` binds there.
pub open spec fn keeps_lower_names(before: Seq<ScopeView>, after: Seq<ScopeView>) -> bool {
    &&& after.len() >= before.len() - 1
    &&& forall|j: int|
        0 <= j < before.len() - 1 ==> (#[trigger] after[j]).map.dom() == (#[trigger] before[j]).map.dom()
}

/// A call touches the top scope only.
pub proof fn call_touches_the_top_scope(
    m: MachineView,
    callee: ValueView,
    closing_paren: TokenView,
    values: Seq<ValueView>,
)
    requires
        m.scopes.len() >= 1,
    ensures
        keeps_lower_names(m.scopes, evaluate_call(m, callee, closing_paren, values).machine.scopes),
{
    match callee {
        ValueView::Function { args, body, .. } => {
            if args.len() == values.len() && first_untyped(values, 0) is None {
                with_arguments_keeps_lower_scopes(
                    entered(m.scopes, true),
                    args,
                    values,
                    args.len(),
                );
                let after = with_arguments(entered(m.scopes, true), args, values, args.len());
                assert forall|j: int| 0 <= j < m.scopes.len() - 1 implies (#[trigger] after[j]).map.dom()
                    == (#[trigger] m.scopes[j]).map.dom() by {
                    assert(entered(m.scopes, true)[j] == m.scopes[j]);
                }
            }
        },
        _ => {},
    }
}

/// A step touches the top scope only. Unless it ends the evaluation
/// with an error, every scope below the top one binds after the step the
/// names that it bound before; the top scope may have ended, and new
/// scopes may have been entered.
pub proof fn step_touches_the_top_scope(m: MachineView, event: EventView)
    requires
        m.scopes.len() >= 1,
    ensures
        fails(m, event) || keeps_lower_names(m.scopes, step(m, event).machine.scopes),
{
    let scopes = m.scopes;
    let top = scopes.len() - 1;
    assert forall|name: Seq<char>, value: ValueView|
        keeps_lower_names(scopes, #[trigger] bound(scopes, top, name, value)) by {
        bound_keeps_other_names(scopes, top, name, value);
    }
    assert forall|name: Seq<char>, value: ValueView|
        assigned(scopes, name, value, false) is Ok implies keeps_lower_names(
        scopes,
        (#[trigger] assigned(scopes, name, value, false))->Ok_0,
    ) by {
        assignment_keeps_outer_names(scopes, name, value, false);
        let after = assigned(scopes, name, value, false)->Ok_0;
        assert forall|j: int| 0 <= j < scopes.len() - 1 implies (#[trigger] after[j]).map.dom() == (
        #[trigger] scopes[j]).map.dom() by {
            assert(after.drop_last()[j] == after[j]);
            assert(scopes.drop_last()[j] == scopes[j]);
        }
    }
    match m.control {
        ControlView::Deliver(value) => {
            if m.stack.len() > 0 {
                let rest = crate::semantics::popped(crate::semantics::taken(m));
                match m.stack.last() {
                    FrameView::Callee { closing_paren, arguments } => {
                        call_touches_the_top_scope(rest, value, closing_paren, Seq::empty());
                    },
                    FrameView::Arguments { callee, closing_paren, values, .. } => {
                        call_touches_the_top_scope(
                            rest,
                            callee,
                            closing_paren,
                            values.push(value),
                        );
                    },
                    _ => {},
                }
            }
        },
        _ => {},
    }
}

/// Whether `after` holds every scope below the top one of `before` as it was.
pub open spec fn keeps_lower_scopes(before: Seq<ScopeView>, after: Seq<ScopeView>) -> bool {
    &&& after.len() >= before.len() - 1
    &&& forall|j: int| 0 <= j < before.len() - 1 ==> (#[trigger] after[j]) == before[j]
}

/// Only an assignment changes what a name of a lower scope means: every
/// step but the one in which an assignment takes its value, and the one
/// that ends the evaluation with an error, leaves the scopes below the top
/// one as they are. The step of an assignment is `assigned`.
pub proof fn only_assignments_change_lower_scopes(m: MachineView, event: EventView)
    requires
        m.scopes.len() >= 1,
    ensures
        ({
            let next = step(m, event).machine;
            if m.control is Deliver && m.stack.len() > 0 && m.stack.last() is Assign {
                match assigned(
                    m.scopes,
                    m.stack.last()->Assign_ident.lexeme,
                    m.control->Deliver_0,
                    false,
                ) {
                    Ok(scopes) => next.scopes == scopes,
                    Err(_) => next.scopes == m.scopes,
                }
            } else {
                fails(m, event) || keeps_lower_scopes(m.scopes, next.scopes)
            }
        }),
{
    let scopes = m.scopes;
    let top = scopes.len() - 1;
    assert forall|name: Seq<char>, value: ValueView|
        keeps_lower_scopes(scopes, #[trigger] bound(scopes, top, name, value)) by {
        bound_keeps_other_names(scopes, top, name, value);
    }
    match m.control {
        ControlView::Deliver(value) => {
            if m.stack.len() > 0 {
                let rest = crate::semantics::popped(crate::semantics::taken(m));
                match m.stack.last() {
                    FrameView::Callee { closing_paren, arguments } => {
                        call_keeps_lower_scopes(rest, value, closing_paren, Seq::empty());
                    },
                    FrameView::Arguments { callee, closing_paren, values, .. } => {
                        call_keeps_lower_scopes(rest, callee, closing_paren, values.push(value));
                    },
                    _ => {},
                }
            }
        },
        _ => {},
    }
}

/// A call leaves the scopes below the top one as they are.
pub proof fn call_keeps_lower_scopes(
    m: MachineView,
    callee: ValueView,
    closing_paren: TokenView,
    values: Seq<ValueView>,
)
    requires
        m.scopes.len() >= 1,
    ensures
        keeps_lower_scopes(m.scopes, evaluate_call(m, callee, closing_paren, values).machine.scopes),
{
    match callee {
        ValueView::Function { args, body, .. } => {
            if args.len() == values.len() && first_untyped(values, 0) is None {
                with_arguments_keeps_lower_scopes(
                    entered(m.scopes, true),
                    args,
                    values,
                    args.len(),
                );
                let after = with_arguments(entered(m.scopes, true), args, values, args.len());
                assert forall|j: int| 0 <= j < m.scopes.len() - 1 implies (#[trigger] after[j])
                    == m.scopes[j] by {
                    assert(entered(m.scopes, true)[j] == m.scopes[j]);
                }
            }
        },
        _ => {},
    }
}

/// The frames from the block's own on hold at least one scope, and at
/// least two if another frame with a scope is on top.
pub proof fn scopes_above_a_block(stack: Seq<FrameView>, base: Seq<FrameView>)
    requires
        stack.len() > base.len(),
        stack.take(base.len() as int) == base,
        is_scoped_block(stack[base.len() as int]),
    ensures
        scopes_of(stack) >= scopes_of(base) + 1,
        stack.len() > base.len() + 1 && has_scope(stack.last()) ==> scopes_of(stack) >= scopes_of(
            base,
        ) + 2,
        stack.len() == base.len() + 1 ==> scopes_of(stack) == scopes_of(base) + 1,
    decreases stack.len(),
{
    let below = stack.drop_last();
    if stack.len() == base.len() + 1 {
        assert(below =~= base);
    } else {
        assert(below.take(base.len() as int) =~= stack.take(base.len() as int));
        scopes_above_a_block(below, base);
    }
}

/// Whether the machine is inside a block: the frame of the block, which
/// has a scope of its own, stands on the frames `base`, and the scopes
/// `below` the block's own bind the names they bound when the block started.
pub open spec fn inside_block(m: MachineView, base: Seq<FrameView>, below: Seq<ScopeView>) -> bool {
    &&& balanced(m)
    &&& below.len() == 1 + scopes_of(base)
    &&& m.stack.len() > base.len()
    &&& m.stack.take(base.len() as int) == base
    &&& is_scoped_block(m.stack[base.len() as int])
    &&& m.scopes.len() > below.len()
    &&& same_names(m.scopes.take(below.len() as int), below)
}

/// Whether the block has ended. Either its frame has been taken off (it
/// came to its end, or a `return` left it), and the scopes are those below
/// the block's own, with the names they had; or the evaluation has failed,
/// and the global scope is left, with the names it had.
pub open spec fn block_has_ended(m: MachineView, base: Seq<FrameView>, below: Seq<ScopeView>) -> bool {
    ||| m.stack == base && same_names(m.scopes, below)
    ||| m.control is Idle && m.stack.len() == 0 && same_names(m.scopes, below.take(1))
}

/// The step that starts a block puts the block's frame on the stack and
/// enters the block's scope: the machine is then inside the block.
pub proof fn a_block_starts(m: MachineView, event: EventView, statements: Seq<StatementView>)
    requires
        balanced(m),
        m.control == ControlView::Execute(StatementView::Block { statements }),
    ensures
        step(m, event).action is None,
        step(m, event).machine.stack == m.stack.push(
            FrameView::Block { statements, next: 0, scoped: true },
        ),
        step(m, event).machine.scopes == entered(m.scopes, m.scopes.last().function),
        inside_block(step(m, event).machine, m.stack, m.scopes),
{
    let next = step(m, event).machine;
    step_keeps_balance(m, event);
    assert(next.stack.take(m.stack.len() as int) =~= m.stack);
    assert(next.scopes.take(m.scopes.len() as int) =~= m.scopes);
}

/// Inside a block, a step leaves the machine inside the block or ends the
/// block. Where it takes the block's frame off, the block's scope ends with
/// it and no other: what was assigned to the names of the scopes below is
/// still there.
pub proof fn a_step_inside_a_block(
    m: MachineView,
    event: EventView,
    base: Seq<FrameView>,
    below: Seq<ScopeView>,
)
    requires
        inside_block(m, base, below),
    ensures
        inside_block(step(m, event).machine, base, below) || block_has_ended(
            step(m, event).machine,
            base,
            below,
        ),
        step(m, event).machine.stack == base && !fails(m, event) ==> m.scopes.len() == below.len()
            + 1 && step(m, event).machine.scopes == m.scopes.drop_last(),
{
    let next = step(m, event).machine;
    let depth = m.stack.len() as int;
    let d = base.len() as int;
    let k = below.len() as int;
    step_keeps_balance(m, event);
    step_touches_the_top_frame(m, event);
    step_touches_the_top_scope(m, event);
    scopes_above_a_block(m.stack, base);
    assert forall|j: int| 0 <= j < k implies (#[trigger] m.scopes[j]).map.dom() == below[j].map.dom() by {
        assert(m.scopes.take(k)[j] == m.scopes[j]);
    }
    if fails(m, event) {
        assert(next.scopes =~= m.scopes.take(1));
        assert(same_names(next.scopes, below.take(1))) by {
            assert(next.scopes[0] == m.scopes[0]);
            assert(below.take(1)[0] == below[0]);
        }
    } else {
        if depth == d + 1 {
            assert(m.stack.drop_last() =~= base);
            step_with_a_block_on_top(m, event);
        }
        if next.stack.len() > d {
            // the block's frame is still there
            assert(next.stack.take(d) =~= base) by {
                if next.stack.len() >= depth && next.stack.take(depth) == m.stack {
                    assert(next.stack.take(depth).take(d) =~= next.stack.take(d));
                } else if depth > d + 1 {
                    assert(next.stack.take(depth - 1).take(d) =~= next.stack.take(d));
                    assert(m.stack.drop_last().take(d) =~= m.stack.take(d));
                } else {
                    assert(next.stack.drop_last() =~= next.stack.take(d));
                }
            }
            assert(is_scoped_block(next.stack[d])) by {
                if next.stack.len() >= depth && next.stack.take(depth) == m.stack {
                    assert(next.stack.take(depth)[d] == next.stack[d]);
                } else if depth > d + 1 {
                    assert(next.stack.take(depth - 1)[d] == next.stack[d]);
                    assert(m.stack.drop_last()[d] == m.stack[d]);
                }
            }
            scopes_above_a_block(next.stack, base);
            assert(same_names(next.scopes.take(k), below)) by {
                assert forall|j: int| 0 <= j < k implies (#[trigger] next.scopes.take(k)[j]).map.dom()
                    == (#[trigger] below[j]).map.dom() by {
                    assert(next.scopes.take(k)[j] == next.scopes[j]);
                    assert(next.scopes[j].map.dom() == m.scopes[j].map.dom());
                }
            }
        } else {
            // the block's frame has been taken off
            assert(next.stack.len() == d && depth == d + 1);
            assert(next.stack =~= base) by {
                if next.stack.len() >= depth - 1 && next.stack.take(depth - 1)
                    == m.stack.drop_last() {
                    assert(next.stack.take(d) =~= next.stack);
                }
            }
            assert(m.scopes.len() == k + 1);
            assert(next.scopes.len() == k);
            assert(same_names(next.scopes, below)) by {
                assert forall|j: int| 0 <= j < k implies (#[trigger] next.scopes[j]).map.dom() == (
                #[trigger] below[j]).map.dom() by {
                    assert(next.scopes[j].map.dom() == m.scopes[j].map.dom());
                }
            }
            block_end_leaves_the_scopes_below(m, event);
        }
    }
}

/// The step that takes the frame of a block off the stack ends the
/// block's scope and leaves every other scope as it is.
pub proof fn block_end_leaves_the_scopes_below(m: MachineView, event: EventView)
    requires
        m.stack.len() > 0,
        is_scoped_block(m.stack.last()),
        step(m, event).machine.stack == m.stack.drop_last(),
        !fails(m, event),
        m.scopes.len() >= 2,
    ensures
        step(m, event).machine.scopes == m.scopes.drop_last(),
{
    let stack = m.stack;
    let below = stack.drop_last();
    assert forall|f: FrameView| (#[trigger] stack.push(f)) != below by {
        assert(stack.push(f).len() != below.len());
    }
    assert forall|f: FrameView| (#[trigger] below.push(f)) != below by {
        assert(below.push(f).len() != below.len());
    }
}

/// The machine after one step for each of the host's replies in
/// `events`, or after as many of them as it takes to get down to `depth`
/// frames.
pub open spec fn steps_down_to(m: MachineView, events: Seq<EventView>, depth: nat) -> MachineView
    decreases events.len(),
{
    if events.len() == 0 || m.stack.len() <= depth {
        m
    } else {
        steps_down_to(step(m, events[0]).machine, events.skip(1), depth)
    }
}

/// From the start of a block to its end, the scopes below the block's
/// own keep their names, whatever the host replies on the way: after any
/// number of steps the machine is still inside the block, or the block has
/// ended and the scopes below bind the names they bound before.
pub proof fn a_block_keeps_the_names_below(
    m: MachineView,
    events: Seq<EventView>,
    base: Seq<FrameView>,
    below: Seq<ScopeView>,
)
    requires
        inside_block(m, base, below),
    ensures
        inside_block(steps_down_to(m, events, base.len()), base, below) || block_has_ended(
            steps_down_to(m, events, base.len()),
            base,
            below,
        ),
    decreases events.len(),
{
    if events.len() > 0 {
        let next = step(m, events[0]).machine;
        a_step_inside_a_block(m, events[0], base, below);
        if inside_block(next, base, below) {
            a_block_keeps_the_names_below(next, events.skip(1), base, below);
        } else {
            assert(next.stack.len() <= base.len());
            assert(steps_down_to(next, events.skip(1), base.len()) == next);
        }
    }
}

/// A name that is introduced inside a block is not visible once the
/// block has ended: a name that was not bound when the block started is not
/// bound when the block has ended, whatever was executed in between.
pub proof fn names_of_a_block_end_with_the_block(
    m: MachineView,
    event: EventView,
    statements: Seq<StatementView>,
    events: Seq<EventView>,
    name: Seq<char>,
)
    requires
        balanced(m),
        m.control == ControlView::Execute(StatementView::Block { statements }),
        lookup(m.scopes, name) is None,
    ensures
        ({
            let end = steps_down_to(step(m, event).machine, events, m.stack.len());
            end.stack.len() <= m.stack.len() ==> lookup(end.scopes, name) is None
        }),
{
    let first = step(m, event).machine;
    a_block_starts(m, event, statements);
    a_block_keeps_the_names_below(first, events, m.stack, m.scopes);
    let end = steps_down_to(first, events, m.stack.len());
    if end.stack.len() <= m.stack.len() {
        assert(block_has_ended(end, m.stack, m.scopes));
        if end.stack == m.stack && same_names(end.scopes, m.scopes) {
            holder_by_names(end.scopes, m.scopes, name);
        } else {
            holder_is_innermost(m.scopes, name);
            assert(m.scopes.take(1)[0] == m.scopes[0]);
            holder_is_innermost(m.scopes.take(1), name);
            holder_by_names(end.scopes, m.scopes.take(1), name);
        }
    }
}

} // verus!
