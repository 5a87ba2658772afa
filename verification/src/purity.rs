//! Steps that stay in the current sub-context.
//!
//! Most instructions neither enter nor leave a context: they take
//! instructions and values off the stacks of the current sub-context and put
//! others there, and some of them change the scope or the symbol counter.
//! What such an instruction does is the same whatever lies below what it
//! takes. So what an expression yields, where it is evaluated by such steps
//! alone, does not depend on what else the machine has to do; and where the
//! steps leave the machine as it was but for the value, evaluating the
//! expression twice in a row yields that value twice.

use crate::ast::Expression;
use crate::eval::{Combiner, Custom, Eval, EvalView, LetInner};
use crate::fatal::Fatal;
use crate::interpreter::InterpreterView;
use crate::location::index_count;
use crate::equality::{has_identity, lemma_value_eq_reflexive, value_eq};
use crate::laws::lemma_run_splits;
use crate::machine::{eval_step, run, tick, Progress};
use crate::value::{ScopeView, SubContextView, ValueView};
use vstd::prelude::*;

verus! {

/// The machine with `es` and `vs` as the stacks of its current sub-context.
pub open spec fn holding(c: InterpreterView, es: Seq<EvalView>, vs: Seq<ValueView>) -> InterpreterView {
    c.with_sub(SubContextView { evals: es, values: vs, ..c.sub() })
}

/// What the stacks of the current sub-context are, and that nothing else
/// depends on them.
pub proof fn lemma_holding(c: InterpreterView, es: Seq<EvalView>, vs: Seq<ValueView>)
    requires
        c.has_sub(),
    ensures
        holding(c, es, vs).has_sub(),
        holding(c, es, vs).sub().evals == es,
        holding(c, es, vs).sub().values == vs,
        holding(c, es, vs).sub().num_scopes == c.sub().num_scopes,
        holding(c, es, vs).ctx().scope == c.ctx().scope,
        holding(c, es, vs).counter == c.counter,
        holding(c, es, vs).contexts.len() == c.contexts.len(),
        forall|xs: Seq<EvalView>, ws: Seq<ValueView>| #[trigger]
            holding(holding(c, es, vs), xs, ws) == holding(c, xs, ws),
{
    let a = holding(c, es, vs);
    assert forall|xs: Seq<EvalView>, ws: Seq<ValueView>| #[trigger]
        holding(a, xs, ws) == holding(c, xs, ws) by {
        assert(holding(a, xs, ws).ctx().sub_contexts =~= holding(c, xs, ws).ctx().sub_contexts);
        assert(holding(a, xs, ws).contexts =~= holding(c, xs, ws).contexts);
    }
}

/// What the operations of the machine do to the stacks of the current
/// sub-context.
pub proof fn lemma_holding_operations(c: InterpreterView)
    requires
        c.has_sub(),
    ensures
        forall|es: Seq<EvalView>, vs: Seq<ValueView>| #[trigger]
            holding(c, es, vs).has_sub() && holding(c, es, vs).sub().evals == es && holding(
                c,
                es,
                vs,
            ).sub().values == vs && holding(c, es, vs).ctx().scope == c.ctx().scope && holding(
                c,
                es,
                vs,
            ).counter == c.counter && holding(c, es, vs).contexts.len() == c.contexts.len(),
        forall|es: Seq<EvalView>, vs: Seq<ValueView>, v: ValueView| #[trigger]
            holding(c, es, vs).push_value(v) == Ok::<InterpreterView, Fatal>(
                holding(c, es, vs.push(v)),
            ),
        forall|es: Seq<EvalView>, vs: Seq<ValueView>, e: EvalView| #[trigger]
            holding(c, es, vs).push_eval(e) == Ok::<InterpreterView, Fatal>(
                holding(c, es.push(e), vs),
            ),
        forall|es: Seq<EvalView>, vs: Seq<ValueView>, xs: Seq<EvalView>| #[trigger]
            holding(c, es, vs).push_evals(xs) == Ok::<InterpreterView, Fatal>(
                holding(c, es + xs, vs),
            ),
        forall|es: Seq<EvalView>, vs: Seq<ValueView>| #[trigger]
            holding(c, es, vs).pop_value() == (if vs.len() > 0 {
                Ok::<(ValueView, InterpreterView), Fatal>(
                    (vs.last(), holding(c, es, vs.drop_last())),
                )
            } else {
                Err::<(ValueView, InterpreterView), Fatal>(Fatal::NoValue)
            }),
        forall|es: Seq<EvalView>, vs: Seq<ValueView>, n: nat| #[trigger]
            holding(c, es, vs).take_values(n) == (if n <= vs.len() {
                Ok::<(Seq<ValueView>, InterpreterView), Fatal>(
                    (
                        vs.subrange(vs.len() - n, vs.len() as int),
                        holding(c, es, vs.subrange(0, vs.len() - n)),
                    ),
                )
            } else {
                Err::<(Seq<ValueView>, InterpreterView), Fatal>(Fatal::NoValue)
            }),
        forall|es: Seq<EvalView>, vs: Seq<ValueView>, name: Seq<char>| #[trigger]
            holding(c, es, vs).resolve(name) == c.resolve(name),
{
    assert forall|es: Seq<EvalView>, vs: Seq<ValueView>| #[trigger]
        holding(c, es, vs).has_sub() && holding(c, es, vs).sub().evals == es && holding(
            c,
            es,
            vs,
        ).sub().values == vs && holding(c, es, vs).ctx().scope == c.ctx().scope && holding(
            c,
            es,
            vs,
        ).counter == c.counter && holding(c, es, vs).contexts.len() == c.contexts.len() by {
        lemma_holding(c, es, vs);
    }
    assert forall|es: Seq<EvalView>, vs: Seq<ValueView>, v: ValueView| #[trigger]
        holding(c, es, vs).push_value(v) == Ok::<InterpreterView, Fatal>(
            holding(c, es, vs.push(v)),
        ) by {
        lemma_holding(c, es, vs);
        let a = holding(c, es, vs);
        assert(a.push_value(v)->Ok_0 == holding(a, es, vs.push(v)));
    }
    assert forall|es: Seq<EvalView>, vs: Seq<ValueView>, e: EvalView| #[trigger]
        holding(c, es, vs).push_eval(e) == Ok::<InterpreterView, Fatal>(
            holding(c, es.push(e), vs),
        ) by {
        lemma_holding(c, es, vs);
        let a = holding(c, es, vs);
        assert(a.push_eval(e)->Ok_0 == holding(a, es.push(e), vs));
    }
    assert forall|es: Seq<EvalView>, vs: Seq<ValueView>, xs: Seq<EvalView>| #[trigger]
        holding(c, es, vs).push_evals(xs) == Ok::<InterpreterView, Fatal>(
            holding(c, es + xs, vs),
        ) by {
        lemma_holding(c, es, vs);
        let a = holding(c, es, vs);
        assert(a.push_evals(xs)->Ok_0 == holding(a, es + xs, vs));
    }
    assert forall|es: Seq<EvalView>, vs: Seq<ValueView>| #[trigger]
        holding(c, es, vs).pop_value() == (if vs.len() > 0 {
            Ok::<(ValueView, InterpreterView), Fatal>((vs.last(), holding(c, es, vs.drop_last())))
        } else {
            Err::<(ValueView, InterpreterView), Fatal>(Fatal::NoValue)
        }) by {
        lemma_holding(c, es, vs);
        let a = holding(c, es, vs);
        if vs.len() > 0 {
            assert(a.pop_value()->Ok_0.1 == holding(a, es, vs.drop_last()));
        }
    }
    assert forall|es: Seq<EvalView>, vs: Seq<ValueView>, n: nat| #[trigger]
        holding(c, es, vs).take_values(n) == (if n <= vs.len() {
            Ok::<(Seq<ValueView>, InterpreterView), Fatal>(
                (
                    vs.subrange(vs.len() - n, vs.len() as int),
                    holding(c, es, vs.subrange(0, vs.len() - n)),
                ),
            )
        } else {
            Err::<(Seq<ValueView>, InterpreterView), Fatal>(Fatal::NoValue)
        }) by {
        lemma_holding(c, es, vs);
        let a = holding(c, es, vs);
        if n <= vs.len() {
            assert(a.take_values(n)->Ok_0.1 == holding(a, es, vs.subrange(0, vs.len() - n)));
        }
    }
    assert forall|es: Seq<EvalView>, vs: Seq<ValueView>, name: Seq<char>| #[trigger]
        holding(c, es, vs).resolve(name) == c.resolve(name) by {
        lemma_holding(c, es, vs);
    }
}

/// What is put on or taken off a stack does not depend on what lies below.
pub proof fn lemma_stack_frames<A>()
    ensures
        forall|a: Seq<A>, b: Seq<A>, x: A| #[trigger] (a + b).push(x) == a + b.push(x),
        forall|a: Seq<A>, b: Seq<A>, c: Seq<A>| #[trigger] ((a + b) + c) == a + (b + c),
        forall|a: Seq<A>, b: Seq<A>|
            b.len() > 0 ==> #[trigger] (a + b).drop_last() == a + b.drop_last(),
        forall|a: Seq<A>, b: Seq<A>| b.len() > 0 ==> #[trigger] (a + b).last() == b.last(),
{
    assert forall|a: Seq<A>, b: Seq<A>, x: A| #[trigger] (a + b).push(x) == a + b.push(x) by {
        assert((a + b).push(x) =~= a + b.push(x));
    }
    assert forall|a: Seq<A>, b: Seq<A>, c: Seq<A>| #[trigger] ((a + b) + c) == a + (b + c) by {
        assert((a + b) + c =~= a + (b + c));
    }
    assert forall|a: Seq<A>, b: Seq<A>| b.len() > 0 implies #[trigger] (a + b).drop_last() == a
        + b.drop_last() by {
        assert((a + b).drop_last() =~= a + b.drop_last());
    }
}

/// What the operations on the scope and the symbol counter do to a machine
/// that holds given stacks: what they do to the machine, with the stacks left
/// as they are.
pub proof fn lemma_holding_scopes(c: InterpreterView)
    requires
        c.has_sub(),
    ensures
        forall|es: Seq<EvalView>, vs: Seq<ValueView>| #[trigger]
            holding(c, es, vs).push_scope() == (match c.push_scope() {
                Ok(c2) => Ok::<InterpreterView, Fatal>(holding(c2, es, vs)),
                Err(e) => Err::<InterpreterView, Fatal>(e),
            }),
        forall|es: Seq<EvalView>, vs: Seq<ValueView>| #[trigger]
            holding(c, es, vs).pop_scope() == (match c.pop_scope() {
                Ok(c2) => Ok::<InterpreterView, Fatal>(holding(c2, es, vs)),
                Err(e) => Err::<InterpreterView, Fatal>(e),
            }),
        forall|es: Seq<EvalView>, vs: Seq<ValueView>, scope: ScopeView| #[trigger]
            holding(c, es, vs).with_scope(scope) == holding(c.with_scope(scope), es, vs),
        forall|es: Seq<EvalView>, vs: Seq<ValueView>| #[trigger]
            holding(c, es, vs).gen_symbol() == (match c.gen_symbol() {
                Ok((v, c2)) => Ok::<(ValueView, InterpreterView), Fatal>((v, holding(c2, es, vs))),
                Err(e) => Err::<(ValueView, InterpreterView), Fatal>(e),
            }),
        forall|scope: ScopeView| #[trigger] c.with_scope(scope).has_sub(),
        c.push_scope() matches Ok(c2) ==> c2.has_sub(),
        c.pop_scope() matches Ok(c2) ==> c2.has_sub(),
        c.gen_symbol() matches Ok((_, c2)) ==> c2.has_sub(),
{
    assert forall|es: Seq<EvalView>, vs: Seq<ValueView>| #[trigger]
        holding(c, es, vs).push_scope() == (match c.push_scope() {
            Ok(c2) => Ok::<InterpreterView, Fatal>(holding(c2, es, vs)),
            Err(e) => Err::<InterpreterView, Fatal>(e),
        }) by {
        lemma_holding(c, es, vs);
        if let Ok(c2) = c.push_scope() {
            let r = holding(c, es, vs).push_scope()->Ok_0;
            assert(r.ctx().sub_contexts =~= holding(c2, es, vs).ctx().sub_contexts);
            assert(r.contexts =~= holding(c2, es, vs).contexts);
        }
    }
    assert forall|es: Seq<EvalView>, vs: Seq<ValueView>| #[trigger]
        holding(c, es, vs).pop_scope() == (match c.pop_scope() {
            Ok(c2) => Ok::<InterpreterView, Fatal>(holding(c2, es, vs)),
            Err(e) => Err::<InterpreterView, Fatal>(e),
        }) by {
        lemma_holding(c, es, vs);
        if let Ok(c2) = c.pop_scope() {
            let r = holding(c, es, vs).pop_scope()->Ok_0;
            assert(r.ctx().sub_contexts =~= holding(c2, es, vs).ctx().sub_contexts);
            assert(r.contexts =~= holding(c2, es, vs).contexts);
        }
    }
    assert forall|es: Seq<EvalView>, vs: Seq<ValueView>, scope: ScopeView| #[trigger]
        holding(c, es, vs).with_scope(scope) == holding(c.with_scope(scope), es, vs) by {
        lemma_holding(c, es, vs);
        let r = holding(c, es, vs).with_scope(scope);
        let w = holding(c.with_scope(scope), es, vs);
        assert(r.ctx().sub_contexts =~= w.ctx().sub_contexts);
        assert(r.contexts =~= w.contexts);
    }
    assert forall|es: Seq<EvalView>, vs: Seq<ValueView>| #[trigger]
        holding(c, es, vs).gen_symbol() == (match c.gen_symbol() {
            Ok((v, c2)) => Ok::<(ValueView, InterpreterView), Fatal>((v, holding(c2, es, vs))),
            Err(e) => Err::<(ValueView, InterpreterView), Fatal>(e),
        }) by {
        lemma_holding(c, es, vs);
    }
}

/// Whether a combining step stays in the current sub-context.
pub open spec fn is_local_combiner(c: Combiner) -> bool {
    match c {
        Combiner::FunctionInvocationInner(_) => false,
        _ => true,
    }
}

/// Whether an expression's own instruction stays in the current sub-context.
pub open spec fn is_local_expression(e: &Expression) -> bool {
    match *e {
        Expression::Null(_) => true,
        Expression::Bool(_) => true,
        Expression::Int(_) => true,
        Expression::Symbol => true,
        Expression::Ident(_) => true,
        Expression::Negative(_) => true,
        Expression::Not(_) => true,
        Expression::Boolean(_) => true,
        Expression::Comparison(_) => true,
        Expression::Numeric(_) => true,
        Expression::Dot(_) => true,
        Expression::Index(_) => true,
        Expression::If(_) => true,
        Expression::Block(_) => true,
        Expression::Function(_) => true,
        Expression::List(_) => true,
        Expression::Object(_) => true,
        Expression::Location(_) => true,
        _ => false,
    }
}

/// Whether an instruction stays in the current sub-context: it takes
/// instructions and values off its stacks and puts others there, and may
/// change the scope and the symbol counter, but enters and leaves no
/// context.
pub open spec fn is_local(e: EvalView) -> bool {
    match e {
        EvalView::Handler(_) => false,
        EvalView::Step(i) => match i {
            Eval::Expression(x) => is_local_expression(&*x),
            Eval::Statement(_) => true,
            Eval::Block(_) => true,
            Eval::IfInner(_) => true,
            Eval::PushScope(_) => true,
            Eval::PopScope(_) => true,
            Eval::LetInner(_) => true,
            Eval::Custom(c) => is_local_combiner(c.function),
            Eval::CheckTypeInt(_) => true,
            Eval::CheckIntMin(_) => true,
            Eval::CheckTypeObject(_) => true,
            _ => false,
        },
    }
}

/// The machine `r` with `below` and `under` below the stacks of its current
/// sub-context.
pub open spec fn upon(r: InterpreterView, below: Seq<EvalView>, under: Seq<ValueView>) -> InterpreterView {
    holding(r, below + r.sub().evals, under + r.sub().values)
}

/// Whether the instruction `e`, run on the stacks `es` and `vs`, does the
/// same with anything below them.
pub open spec fn framed(
    c: InterpreterView,
    e: EvalView,
    es: Seq<EvalView>,
    vs: Seq<ValueView>,
    below: Seq<EvalView>,
    under: Seq<ValueView>,
) -> bool {
    eval_step(e, holding(c, es, vs)) matches Ok(r) ==> r.has_sub() && eval_step(
        e,
        holding(c, below + es, under + vs),
    ) == Ok::<InterpreterView, Fatal>(upon(r, below, under))
}

/// Whether a combining step takes as many values as its node has parts.
pub open spec fn is_collector(c: Combiner) -> bool {
    c is ListInner || c is ObjectInner || c is LocationChainInner || c is AssignmentInner
}

/// The number of values that a collecting step takes at once.
pub open spec fn collected(c: Combiner) -> nat {
    match c {
        Combiner::ListInner(n) => n.elems@.len(),
        Combiner::ObjectInner(n) => n.elems@.len(),
        Combiner::LocationChainInner(n) => index_count(n.parts@),
        Combiner::AssignmentInner(n) => index_count(n.location.parts@),
        _ => 0,
    }
}

/// Whether a combining step reads a chain that starts at a name.
pub open spec fn starts_at_name(c: Combiner) -> bool {
    c matches Combiner::LocationChainInner(n) && n.base is Ident
}

/// Whether an instruction works on the stacks alone.
pub open spec fn is_quiet(e: EvalView) -> bool {
    match e {
        EvalView::Handler(_) => false,
        EvalView::Step(i) => match i {
            Eval::Expression(x) => is_local_expression(&*x) && !(*x is Symbol) && !(*x is If) && !(
            *x is Block) && !(*x is Function),
            Eval::Custom(c) => is_local_combiner(c.function) && !(c.function is IntrinsicSymbol)
                && !is_collector(c.function),
            Eval::CheckTypeInt(_) => true,
            Eval::CheckIntMin(_) => true,
            Eval::CheckTypeObject(_) => true,
            _ => false,
        },
    }
}

/// Whether an instruction schedules the parts of a block, a statement or an
/// `if`.
pub open spec fn is_schedule(e: EvalView) -> bool {
    e matches EvalView::Step(i) && (i is Block || i is Statement || i is IfInner || (
    i matches Eval::Expression(x) && (*x is If || *x is Block)))
}

/// Whether an instruction makes a symbol.
pub open spec fn makes_symbol(e: EvalView) -> bool {
    e matches EvalView::Step(i) && ((i matches Eval::Expression(x) && *x is Symbol) || (
    i matches Eval::Custom(f) && f.function is IntrinsicSymbol))
}

/// Whether an instruction makes a closure.
pub open spec fn makes_closure(e: EvalView) -> bool {
    e matches EvalView::Step(Eval::Expression(x)) && *x is Function
}

/// The machine after the binding step `n` has bound `v`.
pub open spec fn bound_by(c: InterpreterView, n: LetInner, v: ValueView) -> InterpreterView {
    c.with_scope(c.bind(*n.pattern, v)->Ok_0.ctx().scope)
}

/// An instruction that works on the stacks alone does the same with
/// anything below what it takes.
pub proof fn lemma_quiet_step(
    c: InterpreterView,
    e: EvalView,
    es: Seq<EvalView>,
    vs: Seq<ValueView>,
    below: Seq<EvalView>,
    under: Seq<ValueView>,
)
    requires
        c.has_sub(),
        is_quiet(e),
    ensures
        framed(c, e, es, vs, below, under),
{
    lemma_holding_operations(c);
    lemma_stack_frames::<EvalView>();
    lemma_stack_frames::<ValueView>();
    if let Ok(r) = eval_step(e, holding(c, es, vs)) {
        assert(r == holding(c, r.sub().evals, r.sub().values));
        lemma_holding(c, r.sub().evals, r.sub().values);
    }
}

/// A block, a statement and an `if` schedule their parts whatever lies
/// below.
pub proof fn lemma_schedule_step(
    c: InterpreterView,
    e: EvalView,
    es: Seq<EvalView>,
    vs: Seq<ValueView>,
    below: Seq<EvalView>,
    under: Seq<ValueView>,
)
    requires
        c.has_sub(),
        is_local(e),
        is_schedule(e),
    ensures
        framed(c, e, es, vs, below, under),
{
    lemma_holding_operations(c);
    lemma_stack_frames::<EvalView>();
    lemma_stack_frames::<ValueView>();
    if let Ok(r) = eval_step(e, holding(c, es, vs)) {
        assert(r == holding(c, r.sub().evals, r.sub().values));
        lemma_holding(c, r.sub().evals, r.sub().values);
    }
}

/// Opening and closing a scope, binding, making a closure and making a
/// symbol do the same whatever lies below.
pub proof fn lemma_scope_step(
    c: InterpreterView,
    e: EvalView,
    es: Seq<EvalView>,
    vs: Seq<ValueView>,
    below: Seq<EvalView>,
    under: Seq<ValueView>,
)
    requires
        c.has_sub(),
        is_local(e),
        makes_symbol(e) || makes_closure(e) || (e matches EvalView::Step(i) && (i is PushScope
            || i is PopScope || i is LetInner)),
    ensures
        framed(c, e, es, vs, below, under),
{
    lemma_holding_operations(c);
    lemma_holding_scopes(c);
    lemma_stack_frames::<EvalView>();
    lemma_stack_frames::<ValueView>();
    if let Ok(r) = eval_step(e, holding(c, es, vs)) {
        lemma_holding(r, below + r.sub().evals, under + r.sub().values);
        match e {
            EvalView::Step(Eval::PushScope(_)) => {
                let c2 = c.push_scope()->Ok_0;
                assert(r == holding(c2, es, vs));
                lemma_holding(c2, es, vs);
            },
            EvalView::Step(Eval::PopScope(_)) => {
                let c2 = c.pop_scope()->Ok_0;
                assert(r == holding(c2, es, vs));
                lemma_holding(c2, es, vs);
            },
            EvalView::Step(Eval::LetInner(n)) => {
                let c2 = bound_by(c, n, vs.last());
                assert(r == holding(c2, es, vs.drop_last()));
                lemma_holding(c2, es, vs.drop_last());
            },
            _ => {
                if makes_symbol(e) {
                    let c2 = c.gen_symbol()->Ok_0.1;
                    lemma_holding_operations(c2);
                    lemma_holding(c2, r.sub().evals, r.sub().values);
                } else {
                    let c2 = c.with_scope(ScopeView::child_of(c.ctx().scope));
                    lemma_holding_operations(c2);
                    lemma_holding(c2, r.sub().evals, r.sub().values);
                }
            },
        }
    }
}

/// Taking `n` values off the stack takes the same values, whatever lies
/// below them.
pub proof fn lemma_take_values_upon(
    c: InterpreterView,
    es: Seq<EvalView>,
    vs: Seq<ValueView>,
    below: Seq<EvalView>,
    under: Seq<ValueView>,
    n: nat,
)
    requires
        c.has_sub(),
        n <= vs.len(),
    ensures
        holding(c, es, vs).take_values(n) == Ok::<(Seq<ValueView>, InterpreterView), Fatal>(
            (vs.subrange(vs.len() - n, vs.len() as int), holding(c, es, vs.subrange(0, vs.len() - n))),
        ),
        holding(c, below + es, under + vs).take_values(n) == Ok::<
            (Seq<ValueView>, InterpreterView),
            Fatal,
        >(
            (
                vs.subrange(vs.len() - n, vs.len() as int),
                holding(c, below + es, under + vs.subrange(0, vs.len() - n)),
            ),
        ),
{
    lemma_holding(c, es, vs);
    lemma_holding(c, below + es, under + vs);
    let a = holding(c, es, vs);
    assert(a.take_values(n)->Ok_0.1 == holding(a, es, vs.subrange(0, vs.len() - n)));
    let all = under + vs;
    let b = holding(c, below + es, all);
    assert(all.subrange(all.len() - n, all.len() as int) =~= vs.subrange(
        vs.len() - n,
        vs.len() as int,
    ));
    assert(all.subrange(0, all.len() - n) =~= under + vs.subrange(0, vs.len() - n));
    assert(b.take_values(n)->Ok_0.1 == holding(b, below + es, all.subrange(0, all.len() - n)));
}

/// Putting a value on the stack does the same, whatever lies below.
pub proof fn lemma_push_value_upon(
    c: InterpreterView,
    es: Seq<EvalView>,
    vs: Seq<ValueView>,
    below: Seq<EvalView>,
    under: Seq<ValueView>,
    v: ValueView,
)
    requires
        c.has_sub(),
    ensures
        holding(c, es, vs).push_value(v) == Ok::<InterpreterView, Fatal>(
            holding(c, es, vs.push(v)),
        ),
        holding(c, below + es, under + vs).push_value(v) == Ok::<InterpreterView, Fatal>(
            upon(holding(c, es, vs.push(v)), below, under),
        ),
        holding(c, es, vs.push(v)).has_sub(),
{
    lemma_holding(c, es, vs);
    lemma_holding(c, below + es, under + vs);
    lemma_holding(c, es, vs.push(v));
    let a = holding(c, es, vs);
    assert(a.push_value(v)->Ok_0 == holding(a, es, vs.push(v)));
    let b = holding(c, below + es, under + vs);
    assert((under + vs).push(v) =~= under + vs.push(v));
    assert(b.push_value(v)->Ok_0 == holding(b, below + es, (under + vs).push(v)));
}

/// The steps that collect a list or an object do the same with anything
/// below the values that they take.
pub proof fn lemma_literal_collector_step(
    c: InterpreterView,
    f: Custom,
    es: Seq<EvalView>,
    vs: Seq<ValueView>,
    below: Seq<EvalView>,
    under: Seq<ValueView>,
)
    requires
        c.has_sub(),
        f.function is ListInner || f.function is ObjectInner,
    ensures
        framed(c, EvalView::Step(Eval::Custom(f)), es, vs, below, under),
{
    let e = EvalView::Step(Eval::Custom(f));
    lemma_holding(c, es, vs);
    if let Ok(r) = eval_step(e, holding(c, es, vs)) {
        let n = collected(f.function);
        lemma_take_values_upon(c, es, vs, below, under, n);
        let rest = vs.subrange(0, vs.len() - n);
        let x = r.sub().values.last();
        lemma_push_value_upon(c, es, rest, below, under, x);
    }
}

/// The step that reads a chain does the same with anything below the values
/// that it takes.
pub proof fn lemma_chain_collector_step(
    c: InterpreterView,
    f: Custom,
    es: Seq<EvalView>,
    vs: Seq<ValueView>,
    below: Seq<EvalView>,
    under: Seq<ValueView>,
)
    requires
        c.has_sub(),
        f.function is LocationChainInner,
    ensures
        framed(c, EvalView::Step(Eval::Custom(f)), es, vs, below, under),
{
    let e = EvalView::Step(Eval::Custom(f));
    lemma_holding(c, es, vs);
    if let Ok(r) = eval_step(e, holding(c, es, vs)) {
        let n = collected(f.function);
        lemma_take_values_upon(c, es, vs, below, under, n);
        let rest = vs.subrange(0, vs.len() - n);
        lemma_holding(c, es, rest);
        lemma_holding(c, below + es, under + rest);
        let x = r.sub().values.last();
        if starts_at_name(f.function) {
            lemma_push_value_upon(c, es, rest, below, under, x);
        } else {
            let a = holding(c, es, rest);
            let b = holding(c, below + es, under + rest);
            assert(rest.len() > 0);
            assert(a.pop_value()->Ok_0.1 == holding(a, es, rest.drop_last()));
            assert((under + rest).drop_last() =~= under + rest.drop_last());
            assert(b.pop_value()->Ok_0.1 == holding(b, below + es, (under + rest).drop_last()));
            lemma_push_value_upon(c, es, rest.drop_last(), below, under, x);
        }
    }
}

/// The step that assigns does the same with anything below the values that
/// it takes.
pub proof fn lemma_assignment_collector_step(
    c: InterpreterView,
    f: Custom,
    es: Seq<EvalView>,
    vs: Seq<ValueView>,
    below: Seq<EvalView>,
    under: Seq<ValueView>,
)
    requires
        c.has_sub(),
        f.function is AssignmentInner,
    ensures
        framed(c, EvalView::Step(Eval::Custom(f)), es, vs, below, under),
{
    let e = EvalView::Step(Eval::Custom(f));
    lemma_holding(c, es, vs);
    if let Ok(r) = eval_step(e, holding(c, es, vs)) {
        let n = collected(f.function);
        lemma_take_values_upon(c, es, vs, below, under, n);
        let rest = vs.subrange(0, vs.len() - n);
        lemma_holding(c, es, rest);
        lemma_holding(c, below + es, under + rest);
        let a = holding(c, es, rest);
        let b = holding(c, below + es, under + rest);
        assert(rest.len() > 0);
        assert(a.pop_value()->Ok_0.1 == holding(a, es, rest.drop_last()));
        assert((under + rest).drop_last() =~= under + rest.drop_last());
        assert(b.pop_value()->Ok_0.1 == holding(b, below + es, (under + rest).drop_last()));
        lemma_holding(c, es, rest.drop_last());
        lemma_holding(c, below + es, under + rest.drop_last());
        let a2 = holding(c, es, rest.drop_last());
        let b2 = holding(c, below + es, under + rest.drop_last());
        let scope = r.ctx().scope;
        assert(r == a2.with_scope(scope));
        lemma_holding_scopes(c);
        assert(a2.with_scope(scope) == holding(c.with_scope(scope), es, rest.drop_last()));
        assert(b2.with_scope(scope) == holding(
            c.with_scope(scope),
            below + es,
            under + rest.drop_last(),
        ));
        lemma_holding(c.with_scope(scope), es, rest.drop_last());
    }
}

/// The steps that collect a list or an object, read a chain and assign do
/// the same with anything below the values that they take.
pub proof fn lemma_collector_step(
    c: InterpreterView,
    f: Custom,
    es: Seq<EvalView>,
    vs: Seq<ValueView>,
    below: Seq<EvalView>,
    under: Seq<ValueView>,
)
    requires
        c.has_sub(),
        is_collector(f.function),
    ensures
        framed(c, EvalView::Step(Eval::Custom(f)), es, vs, below, under),
{
    if f.function is LocationChainInner {
        lemma_chain_collector_step(c, f, es, vs, below, under);
    } else if f.function is AssignmentInner {
        lemma_assignment_collector_step(c, f, es, vs, below, under);
    } else {
        lemma_literal_collector_step(c, f, es, vs, below, under);
    }
}

/// An instruction that stays in the current sub-context does the same with
/// anything below what it takes.
pub proof fn lemma_local_step(
    c: InterpreterView,
    e: EvalView,
    es: Seq<EvalView>,
    vs: Seq<ValueView>,
    below: Seq<EvalView>,
    under: Seq<ValueView>,
)
    requires
        c.has_sub(),
        is_local(e),
    ensures
        framed(c, e, es, vs, below, under),
{
    if is_quiet(e) {
        lemma_quiet_step(c, e, es, vs, below, under);
    } else if e matches EvalView::Step(Eval::Custom(f)) && is_collector(f.function) {
        lemma_collector_step(c, e->Step_0->Custom_0, es, vs, below, under);
    } else if is_schedule(e) {
        lemma_schedule_step(c, e, es, vs, below, under);
    } else {
        lemma_scope_step(c, e, es, vs, below, under);
    }
}

/// The machine after `n` steps that all stay in the current sub-context.
/// There is none where one of these steps would stop the machine or is of
/// another kind, or where the instructions run out before.
pub open spec fn local_run(b: InterpreterView, n: nat) -> Option<InterpreterView>
    decreases n,
{
    if n == 0 {
        Some(b)
    } else if !b.has_sub() || b.sub().evals.len() == 0 || !is_local(b.sub().evals.last()) {
        None
    } else {
        match eval_step(
            b.sub().evals.last(),
            holding(b, b.sub().evals.drop_last(), b.sub().values),
        ) {
            Ok(r) => local_run(r, (n - 1) as nat),
            Err(_) => None,
        }
    }
}

/// The next instruction is the one on top, whatever lies below.
pub proof fn lemma_holding_pop_eval(c: InterpreterView, es: Seq<EvalView>, vs: Seq<ValueView>)
    requires
        c.has_sub(),
        es.len() > 0,
    ensures
        holding(c, es, vs).pop_eval() == Ok::<(EvalView, InterpreterView), Fatal>(
            (es.last(), holding(c, es.drop_last(), vs)),
        ),
{
    lemma_holding(c, es, vs);
    let a = holding(c, es, vs);
    assert(a.pop_eval()->Ok_0.1 == holding(a, es.drop_last(), vs));
}

/// Steps that stay in the current sub-context do the same with anything
/// below what they take: as long as something is left to do below, the
/// machine runs as it would without it.
pub proof fn lemma_local_run(b: InterpreterView, n: nat, below: Seq<EvalView>, under: Seq<ValueView>)
    requires
        b.has_sub(),
        below.len() > 0,
        local_run(b, n) is Some,
    ensures
        local_run(b, n)->0.has_sub(),
        run(upon(b, below, under), n) == Ok::<Progress, Fatal>(
            Progress::Running(upon(local_run(b, n)->0, below, under)),
        ),
    decreases n,
{
    if n > 0 {
        let e = b.sub().evals.last();
        let es = b.sub().evals.drop_last();
        let vs = b.sub().values;
        let r = eval_step(e, holding(b, es, vs))->Ok_0;
        lemma_local_step(b, e, es, vs, below, under);
        lemma_stack_frames::<EvalView>();
        lemma_holding_pop_eval(b, below + b.sub().evals, under + vs);
        lemma_holding(b, below + b.sub().evals, under + vs);
        lemma_holding(r, below + r.sub().evals, under + r.sub().values);
        reveal(tick);
        assert(tick(upon(b, below, under)) == Ok::<Progress, Fatal>(
            Progress::Running(upon(r, below, under)),
        ));
        lemma_local_run(r, (n - 1) as nat, below, under);
    }
}

/// Evaluating twice what is evaluated by steps that stay in the current
/// sub-context, and that leave the machine as it was but for a value, yields
/// that value twice: the two values are one and the same, and equal in the
/// language's sense unless they hold a closure or an effect.
pub proof fn lemma_local_twice(s: InterpreterView, e: EvalView, n: nat, v: ValueView)
    requires
        s.has_sub(),
        s.sub().evals.len() > 0,
        local_run(holding(s, seq![e], Seq::empty()), n) == Some(
            holding(s, Seq::empty(), seq![v]),
        ),
    ensures
        run(s.plus(seq![e, e], Seq::empty()), n + n) == Ok::<Progress, Fatal>(
            Progress::Running(s.plus(Seq::empty(), seq![v, v])),
        ),
        !has_identity(v) ==> value_eq(v, v),
{
    let b = holding(s, seq![e], Seq::empty());
    let r = holding(s, Seq::empty(), seq![v]);
    lemma_holding(s, seq![e], Seq::empty());
    lemma_holding(s, Seq::empty(), seq![v]);
    let below1 = s.sub().evals + seq![e];
    let under1 = s.sub().values;
    let below2 = s.sub().evals;
    let under2 = s.sub().values + seq![v];
    lemma_local_run(b, n, below1, under1);
    lemma_local_run(b, n, below2, under2);
    let start = holding(s, s.sub().evals + seq![e, e], s.sub().values);
    let middle = holding(s, s.sub().evals + seq![e], s.sub().values + seq![v]);
    let end = holding(s, s.sub().evals, s.sub().values + seq![v, v]);
    assert(below1 + seq![e] =~= s.sub().evals + seq![e, e]);
    assert(under1 + Seq::<ValueView>::empty() =~= s.sub().values);
    assert(upon(b, below1, under1) == start);
    assert(below1 + Seq::<EvalView>::empty() =~= below1);
    assert(upon(r, below1, under1) == middle);
    assert(under2 + Seq::<ValueView>::empty() =~= under2);
    assert(upon(b, below2, under2) == middle);
    assert(below2 + Seq::<EvalView>::empty() =~= below2);
    assert(under2 + seq![v] =~= s.sub().values + seq![v, v]);
    assert(upon(r, below2, under2) == end);
    lemma_run_splits(start, n, n);
    assert(s.sub().values + Seq::<ValueView>::empty() =~= s.sub().values);
    assert(s.sub().evals + Seq::<EvalView>::empty() =~= s.sub().evals);
    assert(s.plus(seq![e, e], Seq::empty()) == start);
    assert(s.plus(Seq::empty(), seq![v, v]) == end);
    if !has_identity(v) {
        lemma_value_eq_reflexive(v);
    }
}

} // verus!
