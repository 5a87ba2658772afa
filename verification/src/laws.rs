//! Laws of the machine, stated over its model.

use crate::aggregates::{list_inner_step, object_inner_step};
use crate::ast::{all_names, FunctionInvocation, List, Object};
use crate::calls::call_takes_apart;
use crate::control::if_inner_step;
use crate::effects::{continue_inner_step, handler_step};
use crate::equality::value_eq;
use crate::eval::{HandlerView, IfInner, custom, Combiner};
use crate::fatal::Fatal;
use crate::interpreter::{InterpreterView, outer_scope};
use crate::frame::lemma_run_sound;
use crate::machine::{needs_unique, advanced, lemma_tick_facts, run, settle, tick, unwind, Progress};
use crate::value::{SubContextView, Value, ValueView};
use std::rc::Rc;
use vstd::prelude::*;

verus! {

/// Putting a value on the value stack and taking it off again leaves the
/// machine as it was.
pub proof fn lemma_push_then_pop_value(s: InterpreterView, v: ValueView)
    requires
        s.has_sub(),
    ensures
        s.push_value(v) is Ok,
        s.push_value(v)->Ok_0.pop_value() == Ok::<(ValueView, InterpreterView), Fatal>((v, s)),
{
    let s1 = s.push_value(v)->Ok_0;
    assert(s1.sub().values.drop_last() =~= s.sub().values);
    assert(s1.ctx().sub_contexts.update(
        s1.ctx().sub_contexts.len() - 1,
        SubContextView { values: s1.sub().values.drop_last(), ..s1.sub() },
    ) =~= s.ctx().sub_contexts);
    assert(s1.pop_value()->Ok_0.1.contexts =~= s.contexts);
}

/// Opening a scope and closing it again leaves the machine as it was: the
/// scope chain is the one from before, and so is the count of open scopes.
pub proof fn lemma_push_then_pop_scope(s: InterpreterView)
    requires
        s.has_sub(),
        s.sub().num_scopes < u64::MAX,
    ensures
        s.push_scope() is Ok,
        s.push_scope()->Ok_0.pop_scope() == Ok::<InterpreterView, Fatal>(s),
{
    let s1 = s.push_scope()->Ok_0;
    assert(s1.ctx().sub_contexts.update(
        s1.ctx().sub_contexts.len() - 1,
        SubContextView { num_scopes: (s1.sub().num_scopes - 1) as u64, ..s1.sub() },
    ) =~= s.ctx().sub_contexts);
    assert(s1.pop_scope()->Ok_0.contexts =~= s.contexts);
}

/// The scopes that a sub-context opened are closed when it is left, however
/// many there are: leaving it right after opening a scope in it gives the
/// scope chain that leaving it before would have given.
pub proof fn lemma_abandoned_scope_is_closed(s: InterpreterView)
    requires
        s.has_sub(),
        s.sub().num_scopes < u64::MAX,
        s.pop_sub_context() is Ok,
    ensures
        s.push_scope() is Ok,
        s.push_scope()->Ok_0.pop_sub_context() == s.pop_sub_context(),
{
    let s1 = s.push_scope()->Ok_0;
    assert(outer_scope(s1.ctx().scope, s1.sub().num_scopes as nat) == outer_scope(
        s.ctx().scope,
        s.sub().num_scopes as nat,
    ));
    assert(s1.ctx().sub_contexts.drop_last() =~= s.ctx().sub_contexts.drop_last());
    assert(s1.pop_sub_context()->Ok_0.1.contexts =~= s.pop_sub_context()->Ok_0.1.contexts);
}

/// `continue` in a loop drops its argument: whatever value it is given, the
/// machine goes on in the same way.
pub proof fn lemma_continue_in_loop_ignores_value(s: InterpreterView, a: ValueView, b: ValueView)
    requires
        s.has_sub(),
        s.sub().typ is Loop,
    ensures
        s.push_value(a) is Ok,
        s.push_value(b) is Ok,
        continue_inner_step(s.push_value(a)->Ok_0) == continue_inner_step(s.push_value(b)->Ok_0),
{
    lemma_push_then_pop_value(s, a);
    lemma_push_then_pop_value(s, b);
}

/// A handler whose operand yields a value that is no effect yields that
/// value: it leaves the machine as it found it.
pub proof fn lemma_handler_passes_values(h: HandlerView, s: InterpreterView)
    requires
        s.has_sub(),
        s.sub().values.len() > 0,
        !(s.sub().values.last() is Effect),
    ensures
        handler_step(h, s) == Ok::<InterpreterView, Fatal>(s),
{
    let v = s.sub().values.last();
    let s1 = s.pop_value()->Ok_0.1;
    assert(s1.sub().values.push(v) =~= s.sub().values);
    assert(s1.ctx().sub_contexts.update(
        s1.ctx().sub_contexts.len() - 1,
        SubContextView { values: s1.sub().values.push(v), ..s1.sub() },
    ) =~= s.ctx().sub_contexts);
    assert(s1.push_value(v)->Ok_0.contexts =~= s.contexts);
}

/// An `if` none of whose conditions holds and that has no `else` yields
/// `null`.
pub proof fn lemma_if_without_else_yields_null(node: IfInner, s: InterpreterView)
    requires
        s.has_sub(),
        s.sub().values.len() > 0,
        s.sub().values.last() == ValueView::Bool(false),
        node.index + 1 == node.node.ifs@.len(),
        node.node.else_body is None,
    ensures
        if_inner_step(node, s) == s.pop_value()->Ok_0.1.push_value(ValueView::Null),
{
}

/// An empty list literal yields a list without items, and any two such lists
/// are equal.
pub proof fn lemma_empty_list_literal(node: Rc<List>, s: InterpreterView)
    requires
        s.has_sub(),
        node.elems@.len() == 0,
    ensures
        list_inner_step(node, s) == s.push_value(ValueView::List(Seq::empty())),
        value_eq(ValueView::List(Seq::empty()), ValueView::List(Seq::empty())),
{
    let taken = s.take_values(0)->Ok_0;
    assert(taken.0 =~= Seq::empty());
    assert(s.sub().values.subrange(0, s.sub().values.len() as int) =~= s.sub().values);
    assert(s.ctx().sub_contexts.update(s.ctx().sub_contexts.len() - 1, s.sub())
        =~= s.ctx().sub_contexts);
    assert(taken.1.contexts =~= s.contexts);
}

/// An empty object literal yields an object without keys, and any two such
/// objects are equal.
pub proof fn lemma_empty_object_literal(node: Rc<Object>, s: InterpreterView)
    requires
        s.has_sub(),
        node.elems@.len() == 0,
    ensures
        object_inner_step(node, s) == s.push_value(ValueView::Object(Map::empty())),
        value_eq(ValueView::Object(Map::empty()), ValueView::Object(Map::empty())),
{
    let taken = s.take_values(0)->Ok_0;
    assert(taken.0 =~= Seq::empty());
    assert(s.sub().values.subrange(0, s.sub().values.len() as int) =~= s.sub().values);
    assert(s.ctx().sub_contexts.update(s.ctx().sub_contexts.len() - 1, s.sub())
        =~= s.ctx().sub_contexts);
    assert(taken.1.contexts =~= s.contexts);
}

/// More fuel does not change how a run ends: a program that has ended, or
/// has stopped with a fatal condition, within `fuel` steps ends in the same
/// way within any larger number of steps.
pub proof fn lemma_run_is_stable(s: InterpreterView, fuel: nat, more: nat)
    requires
        fuel <= more,
        !(run(s, fuel) matches Ok(Progress::Running(_))),
    ensures
        run(s, more) == run(s, fuel),
    decreases fuel,
{
    if fuel > 0 {
        match tick(s) {
            Ok(Progress::Running(s1)) => {
                lemma_run_is_stable(s1, (fuel - 1) as nat, (more - 1) as nat);
            },
            _ => {},
        }
    }
}

/// A run can be split: running `a + b` steps is running `a` steps and then,
/// if there is more to do, `b` steps from where that left the machine.
pub proof fn lemma_run_splits(s: InterpreterView, a: nat, b: nat)
    ensures
        run(s, a + b) == match run(s, a) {
            Ok(Progress::Running(s1)) => run(s1, b),
            other => other,
        },
    decreases a,
{
    if a > 0 {
        match tick(s) {
            Ok(Progress::Running(s1)) => {
                lemma_run_splits(s1, (a - 1) as nat, b);
                assert((a - 1) as nat + b == (a + b - 1) as nat);
            },
            _ => {},
        }
    }
}

/// A program that ends leaves the machine without any function context, and
/// so without any sub-context.
pub proof fn lemma_finished_machine_is_empty(s: InterpreterView, fuel: nat)
    requires
        run(s, fuel) matches Ok(Progress::Finished(_, _)),
    ensures
        run(s, fuel)->Ok_0->Finished_1.contexts.len() == 0,
    decreases fuel,
{
    if fuel > 0 {
        lemma_tick_facts(s);
        match tick(s) {
            Ok(Progress::Running(s1)) => {
                lemma_finished_machine_is_empty(s1, (fuel - 1) as nat);
            },
            _ => {},
        }
    }
}

/// A symbol is new when it is minted: it is greater than every symbol that
/// was minted before it, however many steps the machine has taken in
/// between. So two symbols that a program mints are never equal.
pub proof fn lemma_symbols_are_fresh(s: InterpreterView, fuel: nat)
    requires
        s.gen_symbol() is Ok,
        run(s.gen_symbol()->Ok_0.1, fuel) matches Ok(Progress::Running(after))
            && after.gen_symbol() is Ok,
    ensures
        s.gen_symbol()->Ok_0.0 is Symbol,
        run(s.gen_symbol()->Ok_0.1, fuel)->Ok_0->Running_0.gen_symbol()->Ok_0.0 is Symbol,
        s.gen_symbol()->Ok_0.0->Symbol_0 < run(
            s.gen_symbol()->Ok_0.1,
            fuel,
        )->Ok_0->Running_0.gen_symbol()->Ok_0.0->Symbol_0,
        !value_eq(
            s.gen_symbol()->Ok_0.0,
            run(s.gen_symbol()->Ok_0.1, fuel)->Ok_0->Running_0.gen_symbol()->Ok_0.0,
        ),
{
    lemma_run_sound(s.gen_symbol()->Ok_0.1, fuel);
}

/// Evaluation is determined by the machine and the program: two evaluations
/// that start from the same state and do not stop over a shared value end
/// with the same outcome, in the same state.
pub proof fn lemma_outcome_is_determined(
    first: Result<Option<Value>, Fatal>,
    first_state: InterpreterView,
    second: Result<Option<Value>, Fatal>,
    second_state: InterpreterView,
    start: InterpreterView,
    fuel: nat,
)
    requires
        advanced(first, first_state, run(start, fuel)),
        advanced(second, second_state, run(start, fuel)),
    ensures
        first is Ok <==> second is Ok,
        first is Err ==> first == second,
        first is Ok ==> first_state == second_state,
        first is Ok ==> (first->Ok_0 is Some <==> second->Ok_0 is Some),
        first is Ok && first->Ok_0 is Some ==> first->Ok_0->0@ == second->Ok_0->0@,
{
}

/// Contexts are left in balance. A sub-context that is left at its end has
/// no instruction and holds exactly one value, its result. A function
/// context is left only with its last sub-context, and the program ends only
/// with its last function context.
pub proof fn lemma_left_contexts_are_balanced(s: InterpreterView)
    requires
        s.has_sub(),
        s.sub().evals.len() == 0,
        settle(s) is Ok,
    ensures
        s.sub().values.len() == 1,
        unwind(s) is Ok,
        unwind(s) matches Ok(Progress::Running(s1)) ==> {
            ||| s1.contexts.len() == s.contexts.len() && s1.ctx().sub_contexts.len() + 1
                == s.ctx().sub_contexts.len()
            ||| s1.contexts.len() + 1 == s.contexts.len() && s.ctx().sub_contexts.len() == 1
        },
        unwind(s) matches Ok(Progress::Finished(v, s1)) ==> {
            &&& v == s.sub().values[0]
            &&& s.contexts.len() == 1
            &&& s.ctx().sub_contexts.len() == 1
            &&& s1.contexts.len() == 0
        },
{
}

/// Every context that a run leaves on the way to its end is left in
/// balance: whenever a step of a run that ends with a value finds the current
/// sub-context without instructions, that sub-context holds exactly one
/// value.
pub proof fn lemma_finished_run_is_balanced(s: InterpreterView, fuel: nat)
    requires
        run(s, fuel) matches Ok(Progress::Finished(_, _)),
        s.has_sub(),
        s.sub().evals.len() == 0,
    ensures
        s.sub().values.len() == 1,
{
    reveal(tick);
    if fuel > 0 {
        lemma_left_contexts_are_balanced(s);
    }
}

/// A call of an intrinsic, and of a closure whose parameters are names, asks
/// for nothing to be unshared: whoever else holds the arguments, the call
/// does what its model says.
pub proof fn lemma_plain_call_asks_nothing(node: Rc<FunctionInvocation>, s: InterpreterView)
    requires
        s.pop_value() matches Ok((callee, _)) ==> match callee {
            ValueView::Closure(c) => all_names(c.code.pattern.before_params@) && (
            c.code.pattern.spread_and_after_params matches Some((_, after)) ==> all_names(after@)),
            _ => true,
        },
    ensures
        !call_takes_apart(node, s),
        !needs_unique(custom("FunctionInvocationInner", Combiner::FunctionInvocationInner(node)), s),
{
}

} // verus!
