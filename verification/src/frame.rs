//! What no instruction does: none takes a symbol back, and none stops the
//! model because something was shared. Sharing is decided by the running
//! program alone.

use crate::aggregates::{object_fill, spread_values};
use crate::ast::{
    Assignment, FunctionInvocation, LocationChain, Expression, ListElem, ListPattern, ListSubPattern, Location, ObjectElem, ObjectPattern,
    ObjectSubPattern, Statement,
};
use crate::calls::{invocation_inner_step, push_values};
use crate::eval::{Combiner, Eval, EvalView, LetInner};
use crate::fatal::Fatal;
use crate::interpreter::InterpreterView;
use crate::location::{
    assign_scope, assign_value, assignment_inner_step, location_chain_inner_step, walk,
};
use crate::machine::{
    combiner_step, eval_step, expression_step, open_sub_contexts, run, settle, statement_step, tick,
    unwind, Progress,
};
use crate::pattern::{bind_field, bind_fields, bind_let, bind_list, bind_object, bind_sub, bind_subs};
use crate::value::{KeyView, ScopeView, ValueView};
use std::rc::Rc;
use vstd::prelude::*;

verus! {

/// The fatal conditions that binding by a pattern can end in.
pub open spec fn is_pattern_error(e: Fatal) -> bool {
    e == Fatal::PatternKind || e == Fatal::PatternLength || e == Fatal::PatternField || e
        == Fatal::EffectCloned
}

/// The fatal conditions that following a location chain can end in.
pub open spec fn is_location_error(e: Fatal) -> bool {
    e == Fatal::NotObject || e == Fatal::MissingKey || e == Fatal::NotList || e == Fatal::NotInt
        || e == Fatal::OutOfRange || e == Fatal::NoValue
}

/// Where the model of a binding fails, it fails over the pattern.
pub open spec fn pattern_fails(w: Result<Map<KeyView, ValueView>, Fatal>) -> bool {
    w matches Err(e) ==> is_pattern_error(e)
}

/// Where the model of taking fields fails, it fails over the pattern.
pub open spec fn fields_fail(
    w: Result<(Map<KeyView, ValueView>, Map<KeyView, ValueView>), Fatal>,
) -> bool {
    w matches Err(e) ==> is_pattern_error(e)
}

/// The outcome of an instruction keeps the symbols that were handed out, and
/// is not the fatal condition that sharing raises.
pub open spec fn sound(w: Result<InterpreterView, Fatal>, s: InterpreterView) -> bool {
    match w {
        Ok(s1) => s1.counter >= s.counter,
        Err(e) => e != Fatal::Aliased,
    }
}

/// Making the items of a literal never stops over sharing.
pub proof fn lemma_spread_values_sound(elems: Seq<ListElem>, values: Seq<ValueView>)
    ensures
        spread_values(elems, values) != Err::<Seq<ValueView>, Fatal>(Fatal::Aliased),
    decreases elems.len(),
{
    if elems.len() > 0 && values.len() == elems.len() {
        lemma_spread_values_sound(elems.drop_last(), values.drop_last());
    }
}

/// Making the map of an object literal never stops over sharing.
pub proof fn lemma_object_fill_sound(elems: Seq<ObjectElem>, values: Seq<ValueView>)
    ensures
        object_fill(elems, values) != Err::<Map<KeyView, ValueView>, Fatal>(Fatal::Aliased),
    decreases elems.len(),
{
    if elems.len() > 0 && values.len() == elems.len() {
        lemma_object_fill_sound(elems.drop_last(), values.drop_last());
    }
}

/// The model of binding by a list pattern fails over the pattern alone.
pub proof fn lemma_bind_list_sound(
    lp: &ListPattern,
    items: Seq<ValueView>,
    frame: Map<KeyView, ValueView>,
)
    ensures
        pattern_fails(bind_list(*lp, items, frame)),
    decreases *lp, 0nat,
{
    if lp.accepts(items.len()) {
        match lp.spread_and_after_params {
            None => {
                lemma_bind_subs_sound(lp.before_params@, items, frame);
            },
            Some((spread, after)) => {
                let nb = lp.before_params@.len() as int;
                let na = after@.len() as int;
                lemma_bind_subs_sound(lp.before_params@, items.subrange(0, nb), frame);
                match bind_subs(lp.before_params@, items.subrange(0, nb), frame) {
                    Ok(f1) => {
                        let f2 = match spread {
                            crate::ast::SpreadPattern::Unnamed => f1,
                            crate::ast::SpreadPattern::Named(name) => f1.insert(
                                KeyView::Str(name@),
                                ValueView::List(items.subrange(nb, items.len() - na)),
                            ),
                        };
                        lemma_bind_subs_sound(
                            after@,
                            items.subrange(items.len() - na, items.len() as int),
                            f2,
                        );
                    },
                    Err(_) => {},
                }
            },
        }
    }
}

/// The model of binding item by item fails over the pattern alone.
pub proof fn lemma_bind_subs_sound(
    subs: Seq<ListSubPattern>,
    items: Seq<ValueView>,
    frame: Map<KeyView, ValueView>,
)
    ensures
        pattern_fails(bind_subs(subs, items, frame)),
    decreases subs, 0nat,
{
    if subs.len() > 0 && items.len() == subs.len() {
        lemma_bind_subs_sound(subs.drop_last(), items.drop_last(), frame);
        match bind_subs(subs.drop_last(), items.drop_last(), frame) {
            Ok(f) => {
                lemma_bind_sub_sound(subs.last(), items.last(), f);
            },
            Err(_) => {},
        }
    }
}

/// The model of binding one item fails over the pattern alone.
pub proof fn lemma_bind_sub_sound(
    sub: ListSubPattern,
    v: ValueView,
    frame: Map<KeyView, ValueView>,
)
    ensures
        pattern_fails(bind_sub(sub, v, frame)),
    decreases sub, 2nat,
{
    match sub {
        ListSubPattern::Ident(_) => {},
        ListSubPattern::List(lp) => {
            if let ValueView::List(items) = v {
                lemma_bind_list_sound(&*lp, items, frame);
            }
        },
        ListSubPattern::Object(op) => {
            if let ValueView::Object(m) = v {
                lemma_bind_object_sound(&*op, m, frame);
            }
        },
    }
}

/// The model of binding by an object pattern fails over the pattern alone.
pub proof fn lemma_bind_object_sound(
    op: &ObjectPattern,
    m: Map<KeyView, ValueView>,
    frame: Map<KeyView, ValueView>,
)
    ensures
        pattern_fails(bind_object(*op, m, frame)),
    decreases *op, 0nat,
{
    lemma_bind_fields_sound(op.params@, m, frame);
}

/// The model of binding field by field fails over the pattern alone.
pub proof fn lemma_bind_fields_sound(
    params: Seq<ObjectSubPattern>,
    m: Map<KeyView, ValueView>,
    frame: Map<KeyView, ValueView>,
)
    ensures
        fields_fail(bind_fields(params, m, frame)),
    decreases params, 0nat,
{
    if params.len() > 0 {
        lemma_bind_fields_sound(params.drop_last(), m, frame);
        match bind_fields(params.drop_last(), m, frame) {
            Ok((rest, f)) => {
                lemma_bind_field_sound(params.last(), rest, f);
            },
            Err(_) => {},
        }
    }
}

/// The model of binding one field fails over the pattern alone.
pub proof fn lemma_bind_field_sound(
    param: ObjectSubPattern,
    m: Map<KeyView, ValueView>,
    frame: Map<KeyView, ValueView>,
)
    ensures
        fields_fail(bind_field(param, m, frame)),
    decreases param, 2nat,
{
    let key = KeyView::Str(crate::pattern::field_name(param));
    if m.dom().contains(key) {
        match param {
            ObjectSubPattern::Ident(_) => {},
            ObjectSubPattern::List(_, lp) => {
                if let ValueView::List(items) = m[key] {
                    lemma_bind_list_sound(&*lp, items, frame);
                }
            },
            ObjectSubPattern::Object(_, op) => {
                if let ValueView::Object(o) = m[key] {
                    lemma_bind_object_sound(&*op, o, frame);
                }
            },
        }
    }
}

/// The model of binding by a pattern fails over the pattern alone.
pub proof fn lemma_bind_let_sound(
    pattern: &crate::ast::LetPattern,
    v: ValueView,
    frame: Map<KeyView, ValueView>,
)
    ensures
        pattern_fails(bind_let(*pattern, v, frame)),
{
    match pattern {
        crate::ast::LetPattern::Ident(_) => {},
        crate::ast::LetPattern::List(lp) => {
            if let ValueView::List(items) = v {
                lemma_bind_list_sound(&lp, items, frame);
            }
        },
        crate::ast::LetPattern::Object(op) => {
            if let ValueView::Object(m) = v {
                lemma_bind_object_sound(&op, m, frame);
            }
        },
    }
}

/// Reading along a location chain fails over the chain alone.
pub proof fn lemma_walk_sound(v: ValueView, parts: Seq<Location>, idxs: Seq<ValueView>)
    ensures
        walk(v, parts, idxs) matches Err(e) ==> is_location_error(e),
    decreases parts.len(),
{
    if parts.len() > 0 {
        match parts[0] {
            Location::Dot(d) => {
                if let Ok(x) = crate::aggregates::read_key(v, d.prop@) {
                    lemma_walk_sound(x, parts.skip(1), idxs);
                }
            },
            Location::Index(_) => {
                if idxs.len() > 0 {
                    if let Ok(x) = crate::aggregates::read_index(v, idxs[0]) {
                        lemma_walk_sound(x, parts.skip(1), idxs.skip(1));
                    }
                }
            },
        }
    }
}

/// The model of assigning into a value fails over the chain alone.
pub proof fn lemma_assign_value_sound(
    v: ValueView,
    parts: Seq<Location>,
    idxs: Seq<ValueView>,
    new: ValueView,
)
    ensures
        assign_value(v, parts, idxs, new) matches Err(e) ==> is_location_error(e),
    decreases parts.len(),
{
    if parts.len() > 0 {
        match parts[0] {
            Location::Dot(d) => {
                if let Ok(x) = crate::aggregates::read_key(v, d.prop@) {
                    lemma_assign_value_sound(x, parts.skip(1), idxs, new);
                }
            },
            Location::Index(_) => {
                if idxs.len() > 0 {
                    if let Ok(x) = crate::aggregates::read_index(v, idxs[0]) {
                        lemma_assign_value_sound(x, parts.skip(1), idxs.skip(1), new);
                    }
                }
            },
        }
    }
}

/// The model of assigning along the scope chain fails over the chain or
/// because the name is not bound.
pub proof fn lemma_assign_scope_sound(
    s: ScopeView,
    name: Seq<char>,
    parts: Seq<Location>,
    idxs: Seq<ValueView>,
    new: ValueView,
)
    ensures
        assign_scope(s, name, parts, idxs, new) matches Err(e) ==> is_location_error(e)
            || e == Fatal::Unresolved,
    decreases s,
{
    if s.bindings.dom().contains(KeyView::Str(name)) {
        lemma_assign_value_sound(s.bindings[KeyView::Str(name)], parts, idxs, new);
    } else {
        match s.parent {
            None => {},
            Some(p) => {
                lemma_assign_scope_sound(*p, name, parts, idxs, new);
            },
        }
    }
}

/// Pushing values keeps the counter and never stops over sharing.
pub proof fn lemma_push_values_sound(s: InterpreterView, vs: Seq<ValueView>)
    ensures
        sound(push_values(s, vs), s),
    decreases vs.len(),
{
    if vs.len() > 0 {
        lemma_push_values_sound(s, vs.drop_last());
    }
}

/// An assignment keeps the counter and does not stop the model over sharing.
pub proof fn lemma_assignment_inner_sound(n: Rc<Assignment>, s: InterpreterView)
    ensures
        sound(assignment_inner_step(n, s), s),
{
    if let Ok((idxs, s1)) = s.take_values(crate::location::index_count(n.location.parts@)) {
        if let Ok((v, s2)) = s1.pop_value() {
            if let crate::ast::LocationChainBase::Ident(name) = n.location.base {
                if s2.contexts.len() > 0 {
                    lemma_assign_scope_sound(s2.ctx().scope, name@, n.location.parts@, idxs, v);
                }
            }
        }
    }
}

/// A call keeps the counter and does not stop the model over sharing.
pub proof fn lemma_invocation_inner_sound(n: Rc<FunctionInvocation>, s: InterpreterView)
    ensures
        sound(invocation_inner_step(n, s), s),
{
    if let Ok((callee, s1)) = s.pop_value() {
        if let Ok((values, s2)) = s1.take_values(n.elems@.len()) {
            lemma_spread_values_sound(n.elems@, values);
            if let Ok(args) = spread_values(n.elems@, values) {
                lemma_push_values_sound(s2, args);
                if let ValueView::Closure(c) = callee {
                    lemma_bind_list_sound(&*c.code.pattern, args, Map::empty());
                }
            }
        }
    }
}

/// Reading a location keeps the counter and does not stop the model over
/// sharing.
pub proof fn lemma_location_chain_inner_sound(n: Rc<LocationChain>, s: InterpreterView)
    ensures
        sound(location_chain_inner_step(n, s), s),
{
    if let Ok((idxs, s1)) = s.take_values(crate::location::index_count(n.parts@)) {
        match n.base {
            crate::ast::LocationChainBase::Ident(name) => {
                if let Ok(b) = s1.resolve(name@) {
                    lemma_walk_sound(b, n.parts@, idxs);
                }
            },
            crate::ast::LocationChainBase::Expression(_) => {
                if let Ok((b, _)) = s1.pop_value() {
                    lemma_walk_sound(b, n.parts@, idxs);
                }
            },
        }
    }
}

/// No combining step takes a symbol back or stops the model over sharing.
pub proof fn lemma_combiner_step_sound(c: Combiner, s: InterpreterView)
    ensures
        sound(combiner_step(c, s), s),
{
    match c {
        Combiner::ObjectInner(n) => {
            if let Ok((values, _)) = s.take_values(n.elems@.len()) {
                lemma_object_fill_sound(n.elems@, values);
            }
        },
        Combiner::ListInner(n) => {
            if let Ok((values, _)) = s.take_values(n.elems@.len()) {
                lemma_spread_values_sound(n.elems@, values);
            }
        },
        Combiner::AssignmentInner(n) => {
            lemma_assignment_inner_sound(n, s);
        },
        Combiner::FunctionInvocationInner(n) => {
            lemma_invocation_inner_sound(n, s);
        },
        Combiner::LocationChainInner(n) => {
            lemma_location_chain_inner_sound(n, s);
        },
        _ => {},
    }
}

/// No expression takes a symbol back or stops the model over sharing.
pub proof fn lemma_expression_step_sound(e: &Expression, s: InterpreterView)
    ensures
        sound(expression_step(*e, s), s),
{
}

/// No statement takes a symbol back or stops the model over sharing.
pub proof fn lemma_statement_step_sound(st: &Statement, s: InterpreterView)
    ensures
        sound(statement_step(*st, s), s),
{
}

/// The model of a binding never stops over sharing.
pub proof fn lemma_let_inner_sound(n: LetInner, s: InterpreterView)
    ensures
        sound(eval_step(EvalView::Step(Eval::LetInner(n)), s), s),
{
    if let Ok((v, s1)) = s.pop_value() {
        if s1.contexts.len() > 0 {
            lemma_bind_let_sound(&*n.pattern, v, s1.ctx().scope.bindings);
        }
    }
}

/// No instruction takes a symbol back, and none stops the model with the
/// fatal condition that sharing raises.
pub proof fn lemma_eval_step_sound(e: EvalView, s: InterpreterView)
    ensures
        sound(eval_step(e, s), s),
{
    match e {
        EvalView::Handler(_) => {},
        EvalView::Step(i) => match i {
            Eval::Expression(x) => {
                lemma_expression_step_sound(&*x, s);
            },
            Eval::Statement(x) => {
                lemma_statement_step_sound(&*x, s);
            },
            Eval::Custom(c) => {
                lemma_combiner_step_sound(c.function, s);
            },
            Eval::LetInner(n) => {
                lemma_let_inner_sound(n, s);
            },
            _ => {},
        },
    }
}

/// What a step of the machine does to the counter and to the outcome.
pub open spec fn sound_progress(w: Result<Progress, Fatal>, s: InterpreterView) -> bool {
    match w {
        Ok(Progress::Running(s1)) => s1.counter >= s.counter,
        Ok(Progress::Finished(_, s1)) => s1.counter >= s.counter,
        Err(e) => e != Fatal::Aliased,
    }
}

/// Leaving a sub-context keeps the counter and never stops over sharing.
pub proof fn lemma_unwind_sound(s: InterpreterView)
    ensures
        sound_progress(unwind(s), s),
{
}

/// Settling keeps the counter and never stops over sharing.
pub proof fn lemma_settle_sound(s: InterpreterView)
    ensures
        sound_progress(settle(s), s),
    decreases s.contexts.len(), open_sub_contexts(s),
{
    if s.has_sub() && s.sub().evals.len() == 0 {
        lemma_unwind_sound(s);
        if let Ok(Progress::Running(s1)) = unwind(s) {
            lemma_settle_sound(s1);
        }
    }
}

/// The symbol counter never goes back in a step, and the model of a step
/// never stops because something was shared.
pub proof fn lemma_tick_sound(s: InterpreterView)
    ensures
        sound_progress(tick(s), s),
{
    reveal(tick);
    lemma_settle_sound(s);
    if let Ok((e, s1)) = s.pop_eval() {
        lemma_eval_step_sound(e, s1);
        if let Ok(s2) = eval_step(e, s1) {
            lemma_settle_sound(s2);
        }
    }
}

/// The symbol counter never goes back in a run, and the model of a run never
/// stops because something was shared.
pub proof fn lemma_run_sound(s: InterpreterView, fuel: nat)
    ensures
        sound_progress(run(s, fuel), s),
    decreases fuel,
{
    if fuel > 0 {
        lemma_tick_sound(s);
        if let Ok(Progress::Running(s1)) = tick(s) {
            lemma_run_sound(s1, (fuel - 1) as nat);
        }
    }
}

} // verus!
