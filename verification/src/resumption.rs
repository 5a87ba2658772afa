//! What `continue` in a handler's arm comes to.

use crate::ast::{Block, Continue, Expression, Handle, LetPattern};
use crate::control::block_schedule;
use crate::effects::{find_arm, name};
use crate::eval::{
    block, expression, ContinueInner, Eval, EvalView, HandlerView, LetInner, PopScope, PushScope,
};
use crate::fatal::Fatal;
use crate::interpreter::{outer_scope, InterpreterView};
use crate::laws::lemma_run_splits;
use crate::machine::{eval_step, run, settle, tick, Progress};
use crate::simple::{
    lemma_plus_nothing, lemma_plus_pop_eval, lemma_plus_pop_value, lemma_plus_push_eval,
    lemma_plus_push_evals, lemma_plus_push_value, lemma_run_one,
};
use crate::value::{
    EffectView, FunctionContextView, KeyView, ScopeView, SubContextTypeView, SubContextView,
    ValueView,
};
use std::rc::Rc;
use vstd::prelude::*;

verus! {

/// Whether `b` is the block `{ continue x }`.
pub open spec fn resumes_with(b: &Block, x: Seq<char>) -> bool {
    &&& b.statements@.len() == 0
    &&& b.expression matches Some(e) && *e matches Expression::Continue(c) && c.expr matches Some(
        arg,
    ) && *arg matches Expression::Ident(n) && n@ == x
}

/// The argument of a `continue`.
pub open spec fn argument(e: &Expression) -> Rc<Expression> {
    e->Continue_0.expr->0
}

/// The argument of the `continue` that is a block's trailing expression.
pub open spec fn continue_argument(b: &Block) -> Rc<Expression> {
    argument(&*b.expression->0)
}

/// A step that runs `e` on top of `es` settles what `e` made of the machine.
proof fn lemma_tick_to(
    s: InterpreterView,
    es: Seq<EvalView>,
    vs: Seq<ValueView>,
    e: EvalView,
    t: InterpreterView,
)
    requires
        s.has_sub(),
        eval_step(e, s.plus(es, vs)) == Ok::<InterpreterView, Fatal>(t),
    ensures
        tick(s.plus(es.push(e), vs)) == settle(t),
        run(s.plus(es.push(e), vs), 1) == settle(t),
{
    reveal(tick);
    lemma_plus_pop_eval(s, es, vs, e);
    lemma_run_one(s.plus(es.push(e), vs));
}

/// Opening a scope does not touch what is on the stacks.
proof fn lemma_plus_push_scope(s: InterpreterView, es: Seq<EvalView>, vs: Seq<ValueView>)
    requires
        s.has_sub(),
        s.sub().num_scopes < u64::MAX,
    ensures
        s.plus(es, vs).push_scope() == Ok::<InterpreterView, Fatal>(
            s.push_scope()->Ok_0.plus(es, vs),
        ),
        s.push_scope()->Ok_0.has_sub(),
{
    let a = s.plus(es, vs).push_scope()->Ok_0;
    let b = s.push_scope()->Ok_0.plus(es, vs);
    assert(a.ctx().sub_contexts =~= b.ctx().sub_contexts);
    assert(a.contexts =~= b.contexts);
}

/// Binding a name does not touch what is on the stacks.
proof fn lemma_plus_bind(
    s: InterpreterView,
    es: Seq<EvalView>,
    vs: Seq<ValueView>,
    x: String,
    v: ValueView,
)
    requires
        s.has_sub(),
    ensures
        s.plus(es, vs).bind(LetPattern::Ident(x), v) == Ok::<InterpreterView, Fatal>(
            s.bind(LetPattern::Ident(x), v)->Ok_0.plus(es, vs),
        ),
        s.bind(LetPattern::Ident(x), v) is Ok,
        s.bind(LetPattern::Ident(x), v)->Ok_0.has_sub(),
{
    let a = s.plus(es, vs).bind(LetPattern::Ident(x), v)->Ok_0;
    let b = s.bind(LetPattern::Ident(x), v)->Ok_0.plus(es, vs);
    assert(a.ctx().sub_contexts =~= b.ctx().sub_contexts);
    assert(a.contexts =~= b.contexts);
}

/// Whether `a` is the machine `s` with a sub-context for an arm of `h` on top,
/// `depth` scopes into it and with nothing on its stacks.
pub open spec fn in_arm(
    a: InterpreterView,
    s: InterpreterView,
    h: HandlerView,
    ctx: FunctionContextView,
    depth: nat,
) -> bool {
    &&& s.has_sub()
    &&& a.has_sub()
    &&& a.counter == s.counter
    &&& a.contexts.drop_last() == s.contexts.drop_last()
    &&& a.ctx().sub_contexts.drop_last() == s.ctx().sub_contexts
    &&& a.sub().typ == SubContextTypeView::Handle(h, Box::new(ctx))
    &&& a.sub().num_scopes == depth
    &&& a.sub().evals.len() == 0
    &&& a.sub().values.len() == 0
    &&& outer_scope(a.ctx().scope, depth) == Some(s.ctx().scope)
}

/// The handler opens a sub-context for the arm and schedules the arm in it.
proof fn lemma_step_handler(h: HandlerView, j: nat, effect: EffectView, s: InterpreterView)
    requires
        s.has_sub(),
        find_arm(h.symbols, h.node.match_arms@.len(), effect.symbol, 0) == Some(j),
        j < h.node.match_arms@.len(),
    ensures
        s.push_sub_context(
            SubContextView::fresh(SubContextTypeView::Handle(h, Box::new(effect.ctx))),
        ) is Ok,
        ({
            let opened = s.push_sub_context(
                SubContextView::fresh(SubContextTypeView::Handle(h, Box::new(effect.ctx))),
            )->Ok_0;
            let arm = h.node.match_arms@[j as int];
            &&& in_arm(opened, s, h, effect.ctx, 0)
            &&& eval_step(
                EvalView::Handler(h),
                s.plus(Seq::empty(), seq![ValueView::Effect(Box::new(effect))]),
            ) == Ok::<InterpreterView, Fatal>(
                opened.plus(
                    seq![
                        EvalView::Step(Eval::PopScope(PopScope)),
                        block(arm.block),
                        EvalView::Step(
                            Eval::LetInner(
                                LetInner { pattern: Rc::new(LetPattern::Ident(arm.param)) },
                            ),
                        ),
                        EvalView::Step(Eval::PushScope(PushScope)),
                    ],
                    seq![effect.value],
                ),
            )
        }),
{
    let none = Seq::<EvalView>::empty();
    let nothing = Seq::<ValueView>::empty();
    let sent = ValueView::Effect(Box::new(effect));
    let arm = h.node.match_arms@[j as int];
    let pop = EvalView::Step(Eval::PopScope(PopScope));
    let push = EvalView::Step(Eval::PushScope(PushScope));
    let bind = EvalView::Step(
        Eval::LetInner(LetInner { pattern: Rc::new(LetPattern::Ident(arm.param)) }),
    );
    let body = block(arm.block);
    assert(nothing.push(sent) =~= seq![sent]);
    lemma_plus_nothing(s);
    lemma_plus_pop_value(s, none, nothing, sent);
    let opened = s.push_sub_context(
        SubContextView::fresh(SubContextTypeView::Handle(h, Box::new(effect.ctx))),
    )->Ok_0;
    assert(opened.ctx().sub_contexts.drop_last() =~= s.ctx().sub_contexts);
    assert(opened.contexts.drop_last() =~= s.contexts.drop_last());
    lemma_plus_nothing(opened);
    lemma_plus_push_eval(opened, none, nothing, pop);
    lemma_plus_push_eval(opened, none.push(pop), nothing, body);
    lemma_plus_push_eval(opened, none.push(pop).push(body), nothing, bind);
    lemma_plus_push_value(opened, none.push(pop).push(body).push(bind), nothing, effect.value);
    lemma_plus_push_eval(
        opened,
        none.push(pop).push(body).push(bind),
        nothing.push(effect.value),
        push,
    );
    assert(none.push(pop).push(body).push(bind).push(push) =~= seq![pop, body, bind, push]);
    assert(nothing.push(effect.value) =~= seq![effect.value]);
}

/// Opening a scope in an arm.
proof fn lemma_step_push_scope(
    a: InterpreterView,
    s: InterpreterView,
    h: HandlerView,
    ctx: FunctionContextView,
    depth: nat,
    es: Seq<EvalView>,
    vs: Seq<ValueView>,
)
    requires
        in_arm(a, s, h, ctx, depth),
        depth < 8,
    ensures
        a.push_scope() is Ok,
        in_arm(a.push_scope()->Ok_0, s, h, ctx, depth + 1),
        a.push_scope()->Ok_0.ctx().scope == ScopeView::child_of(a.ctx().scope),
        eval_step(EvalView::Step(Eval::PushScope(PushScope)), a.plus(es, vs)) == Ok::<
            InterpreterView,
            Fatal,
        >(a.push_scope()->Ok_0.plus(es, vs)),
{
    lemma_plus_push_scope(a, es, vs);
    lemma_base_scope(a, s, h, ctx, depth);
}

/// Binding the payload in an arm.
proof fn lemma_step_bind(
    a: InterpreterView,
    s: InterpreterView,
    h: HandlerView,
    ctx: FunctionContextView,
    depth: nat,
    es: Seq<EvalView>,
    vs: Seq<ValueView>,
    x: String,
    v: ValueView,
)
    requires
        in_arm(a, s, h, ctx, depth),
        depth > 0,
    ensures
        a.bind(LetPattern::Ident(x), v) is Ok,
        in_arm(a.bind(LetPattern::Ident(x), v)->Ok_0, s, h, ctx, depth),
        a.bind(LetPattern::Ident(x), v)->Ok_0.ctx().scope == a.ctx().scope.bind(x@, v),
        eval_step(
            EvalView::Step(Eval::LetInner(LetInner { pattern: Rc::new(LetPattern::Ident(x)) })),
            a.plus(es, vs.push(v)),
        ) == Ok::<InterpreterView, Fatal>(a.bind(LetPattern::Ident(x), v)->Ok_0.plus(es, vs)),
{
    lemma_plus_pop_value(a, es, vs, v);
    lemma_plus_bind(a, es, vs, x, v);
    lemma_base_bind(a, s, h, ctx, depth, x, v);
}

/// Scheduling the block `{ continue x }`.
proof fn lemma_step_block(a: InterpreterView, es: Seq<EvalView>, vs: Seq<ValueView>, b: Rc<Block>)
    requires
        a.has_sub(),
        b.statements@.len() == 0,
        b.expression is Some,
    ensures
        eval_step(block(b), a.plus(es, vs)) == Ok::<InterpreterView, Fatal>(
            a.plus(
                es.push(EvalView::Step(Eval::PopScope(PopScope))).push(
                    expression(b.expression->0),
                ).push(EvalView::Step(Eval::PushScope(PushScope))),
                vs,
            ),
        ),
{
    let pop = EvalView::Step(Eval::PopScope(PopScope));
    let push = EvalView::Step(Eval::PushScope(PushScope));
    let tail = expression(b.expression->0);
    assert(block_schedule(&*b) =~= seq![pop, tail, push]);
    lemma_plus_push_evals(a, es, vs, seq![pop, tail, push]);
    assert(es + seq![pop, tail, push] =~= es.push(pop).push(tail).push(push));
}

/// `continue x` schedules the jump and the reading of `x`.
proof fn lemma_step_continue(
    a: InterpreterView,
    es: Seq<EvalView>,
    vs: Seq<ValueView>,
    e: Rc<Expression>,
)
    requires
        a.has_sub(),
        *e matches Expression::Continue(c) && c.expr is Some,
    ensures
        eval_step(expression(e), a.plus(es, vs)) == Ok::<InterpreterView, Fatal>(
            a.plus(
                es.push(EvalView::Step(Eval::ContinueInner(ContinueInner))).push(
                    expression(argument(&*e)),
                ),
                vs,
            ),
        ),
{
    let jump = EvalView::Step(Eval::ContinueInner(ContinueInner));
    lemma_plus_push_eval(a, es, vs, jump);
    lemma_plus_push_eval(a, es.push(jump), vs, expression(argument(&*e)));
}

/// Reading a name that stands for a value that is no effect.
proof fn lemma_step_read(
    a: InterpreterView,
    es: Seq<EvalView>,
    vs: Seq<ValueView>,
    e: Rc<Expression>,
    v: ValueView,
)
    requires
        a.has_sub(),
        *e matches Expression::Ident(n) && a.ctx().scope.resolve(n@) == Some(v),
        !(v is Effect),
    ensures
        eval_step(expression(e), a.plus(es, vs)) == Ok::<InterpreterView, Fatal>(
            a.plus(es, vs.push(v)),
        ),
{
    lemma_plus_push_value(a, es, vs, v);
}

/// The jump leaves the arm's sub-context, installs the handler again and
/// puts the captured function context back with the value on top of its
/// value stack.
proof fn lemma_step_jump(
    a: InterpreterView,
    s: InterpreterView,
    h: HandlerView,
    ctx: FunctionContextView,
    depth: nat,
    es: Seq<EvalView>,
    v: ValueView,
)
    requires
        in_arm(a, s, h, ctx, depth),
        ctx.sub_contexts.len() > 0,
    ensures
        eval_step(
            EvalView::Step(Eval::ContinueInner(ContinueInner)),
            a.plus(es, seq![v]),
        ) == Ok::<InterpreterView, Fatal>(
            s.plus(seq![EvalView::Handler(h)], Seq::empty()).push_fn_context(ctx).plus(
                Seq::empty(),
                seq![v],
            ),
        ),
{
    let none = Seq::<EvalView>::empty();
    let nothing = Seq::<ValueView>::empty();
    assert(nothing.push(v) =~= seq![v]);
    assert(none.push(EvalView::Handler(h)) =~= seq![EvalView::Handler(h)]);
    lemma_plus_pop_value(a, es, nothing, v);
    let left = a.plus(es, nothing).pop_sub_context();
    assert(left is Ok);
    assert(left->Ok_0.1 == s) by {
        assert(left->Ok_0.1.ctx().sub_contexts =~= s.ctx().sub_contexts);
        assert(left->Ok_0.1.contexts =~= s.contexts) by {
            assert(s.contexts =~= s.contexts.drop_last().push(s.ctx()));
            assert(a.contexts =~= a.contexts.drop_last().push(a.ctx()));
        }
    }
    lemma_plus_nothing(s);
    lemma_plus_push_eval(s, none, nothing, EvalView::Handler(h));
    let back = s.plus(none.push(EvalView::Handler(h)), nothing).push_fn_context(ctx);
    lemma_plus_nothing(back);
    lemma_plus_push_value(back, none, nothing, v);
}

/// As long as the arm has instructions, nothing follows a step in it.
proof fn lemma_settle_arm(
    a: InterpreterView,
    s: InterpreterView,
    h: HandlerView,
    ctx: FunctionContextView,
    depth: nat,
    es: Seq<EvalView>,
    vs: Seq<ValueView>,
)
    requires
        in_arm(a, s, h, ctx, depth),
        es.len() > 0,
    ensures
        settle(a.plus(es, vs)) == Ok::<Progress, Fatal>(Progress::Running(a.plus(es, vs))),
{
}

/// The bases of the machine while the arm `{ continue x }` runs: with the
/// sub-context opened, with the arm's scope, with the payload bound, and
/// with the block's scope.
pub open spec fn arm_base(i: nat, h: HandlerView, j: nat, effect: EffectView, s: InterpreterView) -> InterpreterView {
    let opened = s.push_sub_context(
        SubContextView::fresh(SubContextTypeView::Handle(h, Box::new(effect.ctx))),
    )->Ok_0;
    let scoped = opened.push_scope()->Ok_0;
    let bound = scoped.bind(
        LetPattern::Ident(h.node.match_arms@[j as int].param),
        effect.value,
    )->Ok_0;
    if i == 0 {
        opened
    } else if i == 1 {
        scoped
    } else if i == 2 {
        bound
    } else {
        bound.push_scope()->Ok_0
    }
}

/// The machine after `i` of the eight steps that the arm `{ continue x }`
/// takes over an effect.
#[verifier::opaque]
pub open spec fn arm_state(
    i: nat,
    h: HandlerView,
    j: nat,
    effect: EffectView,
    s: InterpreterView,
) -> InterpreterView {
    let arm = h.node.match_arms@[j as int];
    let pop = EvalView::Step(Eval::PopScope(PopScope));
    let push = EvalView::Step(Eval::PushScope(PushScope));
    let bind = EvalView::Step(
        Eval::LetInner(LetInner { pattern: Rc::new(LetPattern::Ident(arm.param)) }),
    );
    let jump = EvalView::Step(Eval::ContinueInner(ContinueInner));
    let again = expression(arm.block.expression->0);
    let read = expression(continue_argument(&*arm.block));
    let v = effect.value;
    if i == 0 {
        s.plus(seq![EvalView::Handler(h)], seq![ValueView::Effect(Box::new(effect))])
    } else if i == 1 {
        arm_base(0, h, j, effect, s).plus(seq![pop, block(arm.block), bind, push], seq![v])
    } else if i == 2 {
        arm_base(1, h, j, effect, s).plus(seq![pop, block(arm.block), bind], seq![v])
    } else if i == 3 {
        arm_base(2, h, j, effect, s).plus(seq![pop, block(arm.block)], Seq::empty())
    } else if i == 4 {
        arm_base(2, h, j, effect, s).plus(seq![pop, pop, again, push], Seq::empty())
    } else if i == 5 {
        arm_base(3, h, j, effect, s).plus(seq![pop, pop, again], Seq::empty())
    } else if i == 6 {
        arm_base(3, h, j, effect, s).plus(seq![pop, pop, jump, read], Seq::empty())
    } else if i == 7 {
        arm_base(3, h, j, effect, s).plus(seq![pop, pop, jump], seq![v])
    } else {
        s.plus(seq![EvalView::Handler(h)], Seq::empty()).push_fn_context(effect.ctx).plus(
            Seq::empty(),
            seq![v],
        )
    }
}

/// What is known of the handler, the effect and the machine.
pub open spec fn identity_arm(h: HandlerView, j: nat, effect: EffectView, s: InterpreterView) -> bool {
    &&& s.has_sub()
    &&& find_arm(h.symbols, h.node.match_arms@.len(), effect.symbol, 0) == Some(j)
    &&& j < h.node.match_arms@.len()
    &&& resumes_with(&*h.node.match_arms@[j as int].block, h.node.match_arms@[j as int].param@)
    &&& !(effect.value is Effect)
    &&& effect.ctx.sub_contexts.len() > 0
    &&& effect.ctx.sub_contexts.last().evals.len() > 0
}

/// Opening the arm's sub-context.
proof fn lemma_base_opened(h: HandlerView, ctx: FunctionContextView, s: InterpreterView)
    requires
        s.has_sub(),
    ensures
        s.push_sub_context(SubContextView::fresh(SubContextTypeView::Handle(h, Box::new(ctx))))
            is Ok,
        in_arm(
            s.push_sub_context(
                SubContextView::fresh(SubContextTypeView::Handle(h, Box::new(ctx))),
            )->Ok_0,
            s,
            h,
            ctx,
            0,
        ),
{
    let opened = s.push_sub_context(
        SubContextView::fresh(SubContextTypeView::Handle(h, Box::new(ctx))),
    )->Ok_0;
    assert(opened.ctx().sub_contexts.drop_last() =~= s.ctx().sub_contexts);
    assert(opened.contexts.drop_last() =~= s.contexts.drop_last());
}

/// A scope deeper in the arm.
proof fn lemma_base_scope(
    a: InterpreterView,
    s: InterpreterView,
    h: HandlerView,
    ctx: FunctionContextView,
    depth: nat,
)
    requires
        in_arm(a, s, h, ctx, depth),
        depth < 8,
    ensures
        a.push_scope() is Ok,
        in_arm(a.push_scope()->Ok_0, s, h, ctx, depth + 1),
        a.push_scope()->Ok_0.ctx().scope == ScopeView::child_of(a.ctx().scope),
{
    let b = a.push_scope()->Ok_0;
    assert(b.ctx().sub_contexts.drop_last() =~= a.ctx().sub_contexts.drop_last());
    assert(b.contexts.drop_last() =~= a.contexts.drop_last());
    assert(outer_scope(b.ctx().scope, depth + 1) == outer_scope(a.ctx().scope, depth));
}

/// A binding in the arm.
proof fn lemma_base_bind(
    a: InterpreterView,
    s: InterpreterView,
    h: HandlerView,
    ctx: FunctionContextView,
    depth: nat,
    x: String,
    v: ValueView,
)
    requires
        in_arm(a, s, h, ctx, depth),
        depth > 0,
    ensures
        a.bind(LetPattern::Ident(x), v) is Ok,
        in_arm(a.bind(LetPattern::Ident(x), v)->Ok_0, s, h, ctx, depth),
        a.bind(LetPattern::Ident(x), v)->Ok_0.ctx().scope == a.ctx().scope.bind(x@, v),
{
    let b = a.bind(LetPattern::Ident(x), v)->Ok_0;
    assert(b.ctx().sub_contexts =~= a.ctx().sub_contexts);
    assert(b.contexts.drop_last() =~= a.contexts.drop_last());
}

/// The bases lie in the arm, each one scope deeper than the one before the
/// binding.
proof fn lemma_arm_bases(h: HandlerView, j: nat, effect: EffectView, s: InterpreterView)
    requires
        identity_arm(h, j, effect, s),
    ensures
        in_arm(arm_base(0, h, j, effect, s), s, h, effect.ctx, 0),
        in_arm(arm_base(1, h, j, effect, s), s, h, effect.ctx, 1),
        in_arm(arm_base(2, h, j, effect, s), s, h, effect.ctx, 1),
        in_arm(arm_base(3, h, j, effect, s), s, h, effect.ctx, 2),
        arm_base(1, h, j, effect, s) == arm_base(0, h, j, effect, s).push_scope()->Ok_0,
        arm_base(2, h, j, effect, s) == arm_base(1, h, j, effect, s).bind(
            LetPattern::Ident(h.node.match_arms@[j as int].param),
            effect.value,
        )->Ok_0,
        arm_base(3, h, j, effect, s) == arm_base(2, h, j, effect, s).push_scope()->Ok_0,
        arm_base(3, h, j, effect, s).ctx().scope.resolve(h.node.match_arms@[j as int].param@)
            == Some(effect.value),
{
    let x = h.node.match_arms@[j as int].param;
    let b0 = arm_base(0, h, j, effect, s);
    let b1 = arm_base(1, h, j, effect, s);
    let b2 = arm_base(2, h, j, effect, s);
    let b3 = arm_base(3, h, j, effect, s);
    lemma_base_opened(h, effect.ctx, s);
    lemma_base_scope(b0, s, h, effect.ctx, 0);
    lemma_base_bind(b1, s, h, effect.ctx, 1, x, effect.value);
    lemma_base_scope(b2, s, h, effect.ctx, 1);
    lemma_resolve_in_child(b2.ctx().scope, x@, effect.value);
}

/// A name that a scope binds is found from a fresh child of it.
proof fn lemma_resolve_in_child(scope: ScopeView, x: Seq<char>, v: ValueView)
    requires
        scope.bindings.dom().contains(KeyView::Str(x)),
        scope.bindings[KeyView::Str(x)] == v,
    ensures
        ScopeView::child_of(scope).resolve(x) == Some(v),
{
    let child = ScopeView::child_of(scope);
    assert(!child.bindings.dom().contains(KeyView::Str(x)));
    assert(child.resolve(x) == scope.resolve(x));
}

proof fn lemma_arm_step_1(h: HandlerView, j: nat, effect: EffectView, s: InterpreterView)
    requires
        identity_arm(h, j, effect, s),
    ensures
        run(arm_state(0, h, j, effect, s), 1) == Ok::<Progress, Fatal>(
            Progress::Running(arm_state(1, h, j, effect, s)),
        ),
{
    reveal(arm_state);
    let none = Seq::<EvalView>::empty();
    let sent = ValueView::Effect(Box::new(effect));
    assert(none.push(EvalView::Handler(h)) =~= seq![EvalView::Handler(h)]);
    lemma_arm_bases(h, j, effect, s);
    lemma_step_handler(h, j, effect, s);
    lemma_tick_to(s, none, seq![sent], EvalView::Handler(h), arm_state(1, h, j, effect, s));
    let arm = h.node.match_arms@[j as int];
    lemma_settle_arm(
        arm_base(0, h, j, effect, s),
        s,
        h,
        effect.ctx,
        0,
        seq![
            EvalView::Step(Eval::PopScope(PopScope)),
            block(arm.block),
            EvalView::Step(
                Eval::LetInner(LetInner { pattern: Rc::new(LetPattern::Ident(arm.param)) }),
            ),
            EvalView::Step(Eval::PushScope(PushScope)),
        ],
        seq![effect.value],
    );
}

proof fn lemma_arm_step_2(h: HandlerView, j: nat, effect: EffectView, s: InterpreterView)
    requires
        identity_arm(h, j, effect, s),
    ensures
        run(arm_state(1, h, j, effect, s), 1) == Ok::<Progress, Fatal>(
            Progress::Running(arm_state(2, h, j, effect, s)),
        ),
{
    reveal(arm_state);
    let arm = h.node.match_arms@[j as int];
    let pop = EvalView::Step(Eval::PopScope(PopScope));
    let push = EvalView::Step(Eval::PushScope(PushScope));
    let bind = EvalView::Step(
        Eval::LetInner(LetInner { pattern: Rc::new(LetPattern::Ident(arm.param)) }),
    );
    let es = seq![pop, block(arm.block), bind];
    assert(es.push(push) =~= seq![pop, block(arm.block), bind, push]);
    lemma_arm_bases(h, j, effect, s);
    lemma_step_push_scope(arm_base(0, h, j, effect, s), s, h, effect.ctx, 0, es, seq![effect.value]);
    lemma_tick_to(
        arm_base(0, h, j, effect, s),
        es,
        seq![effect.value],
        push,
        arm_state(2, h, j, effect, s),
    );
    lemma_settle_arm(arm_base(1, h, j, effect, s), s, h, effect.ctx, 1, es, seq![effect.value]);
}

proof fn lemma_arm_step_3(h: HandlerView, j: nat, effect: EffectView, s: InterpreterView)
    requires
        identity_arm(h, j, effect, s),
    ensures
        run(arm_state(2, h, j, effect, s), 1) == Ok::<Progress, Fatal>(
            Progress::Running(arm_state(3, h, j, effect, s)),
        ),
{
    reveal(arm_state);
    let arm = h.node.match_arms@[j as int];
    let pop = EvalView::Step(Eval::PopScope(PopScope));
    let bind = EvalView::Step(
        Eval::LetInner(LetInner { pattern: Rc::new(LetPattern::Ident(arm.param)) }),
    );
    let es = seq![pop, block(arm.block)];
    let nothing = Seq::<ValueView>::empty();
    assert(es.push(bind) =~= seq![pop, block(arm.block), bind]);
    assert(nothing.push(effect.value) =~= seq![effect.value]);
    lemma_arm_bases(h, j, effect, s);
    lemma_step_bind(
        arm_base(1, h, j, effect, s),
        s,
        h,
        effect.ctx,
        1,
        es,
        nothing,
        arm.param,
        effect.value,
    );
    lemma_tick_to(
        arm_base(1, h, j, effect, s),
        es,
        nothing.push(effect.value),
        bind,
        arm_state(3, h, j, effect, s),
    );
    lemma_settle_arm(arm_base(2, h, j, effect, s), s, h, effect.ctx, 1, es, nothing);
}

proof fn lemma_arm_step_4(h: HandlerView, j: nat, effect: EffectView, s: InterpreterView)
    requires
        identity_arm(h, j, effect, s),
    ensures
        run(arm_state(3, h, j, effect, s), 1) == Ok::<Progress, Fatal>(
            Progress::Running(arm_state(4, h, j, effect, s)),
        ),
{
    reveal(arm_state);
    let arm = h.node.match_arms@[j as int];
    let pop = EvalView::Step(Eval::PopScope(PopScope));
    let push = EvalView::Step(Eval::PushScope(PushScope));
    let again = expression(arm.block.expression->0);
    let es = seq![pop];
    let nothing = Seq::<ValueView>::empty();
    assert(es.push(block(arm.block)) =~= seq![pop, block(arm.block)]);
    assert(es.push(pop).push(again).push(push) =~= seq![pop, pop, again, push]);
    lemma_arm_bases(h, j, effect, s);
    lemma_step_block(arm_base(2, h, j, effect, s), es, nothing, arm.block);
    lemma_tick_to(
        arm_base(2, h, j, effect, s),
        es,
        nothing,
        block(arm.block),
        arm_state(4, h, j, effect, s),
    );
    lemma_settle_arm(
        arm_base(2, h, j, effect, s),
        s,
        h,
        effect.ctx,
        1,
        seq![pop, pop, again, push],
        nothing,
    );
}

proof fn lemma_arm_step_5(h: HandlerView, j: nat, effect: EffectView, s: InterpreterView)
    requires
        identity_arm(h, j, effect, s),
    ensures
        run(arm_state(4, h, j, effect, s), 1) == Ok::<Progress, Fatal>(
            Progress::Running(arm_state(5, h, j, effect, s)),
        ),
{
    reveal(arm_state);
    let arm = h.node.match_arms@[j as int];
    let pop = EvalView::Step(Eval::PopScope(PopScope));
    let push = EvalView::Step(Eval::PushScope(PushScope));
    let again = expression(arm.block.expression->0);
    let es = seq![pop, pop, again];
    let nothing = Seq::<ValueView>::empty();
    assert(es.push(push) =~= seq![pop, pop, again, push]);
    lemma_arm_bases(h, j, effect, s);
    lemma_step_push_scope(arm_base(2, h, j, effect, s), s, h, effect.ctx, 1, es, nothing);
    lemma_tick_to(arm_base(2, h, j, effect, s), es, nothing, push, arm_state(5, h, j, effect, s));
    lemma_settle_arm(arm_base(3, h, j, effect, s), s, h, effect.ctx, 2, es, nothing);
}

proof fn lemma_arm_step_6(h: HandlerView, j: nat, effect: EffectView, s: InterpreterView)
    requires
        identity_arm(h, j, effect, s),
    ensures
        run(arm_state(5, h, j, effect, s), 1) == Ok::<Progress, Fatal>(
            Progress::Running(arm_state(6, h, j, effect, s)),
        ),
{
    reveal(arm_state);
    let arm = h.node.match_arms@[j as int];
    let pop = EvalView::Step(Eval::PopScope(PopScope));
    let jump = EvalView::Step(Eval::ContinueInner(ContinueInner));
    let again = expression(arm.block.expression->0);
    let read = expression(continue_argument(&*arm.block));
    let es = seq![pop, pop];
    let nothing = Seq::<ValueView>::empty();
    assert(es.push(again) =~= seq![pop, pop, again]);
    assert(es.push(jump).push(read) =~= seq![pop, pop, jump, read]);
    lemma_arm_bases(h, j, effect, s);
    lemma_step_continue(arm_base(3, h, j, effect, s), es, nothing, arm.block.expression->0);
    lemma_tick_to(arm_base(3, h, j, effect, s), es, nothing, again, arm_state(6, h, j, effect, s));
    lemma_settle_arm(
        arm_base(3, h, j, effect, s),
        s,
        h,
        effect.ctx,
        2,
        seq![pop, pop, jump, read],
        nothing,
    );
}

proof fn lemma_arm_step_7(h: HandlerView, j: nat, effect: EffectView, s: InterpreterView)
    requires
        identity_arm(h, j, effect, s),
    ensures
        run(arm_state(6, h, j, effect, s), 1) == Ok::<Progress, Fatal>(
            Progress::Running(arm_state(7, h, j, effect, s)),
        ),
{
    reveal(arm_state);
    let arm = h.node.match_arms@[j as int];
    let pop = EvalView::Step(Eval::PopScope(PopScope));
    let jump = EvalView::Step(Eval::ContinueInner(ContinueInner));
    let read = expression(continue_argument(&*arm.block));
    let es = seq![pop, pop, jump];
    let nothing = Seq::<ValueView>::empty();
    assert(es.push(read) =~= seq![pop, pop, jump, read]);
    assert(nothing.push(effect.value) =~= seq![effect.value]);
    lemma_arm_bases(h, j, effect, s);
    lemma_step_read(
        arm_base(3, h, j, effect, s),
        es,
        nothing,
        continue_argument(&*arm.block),
        effect.value,
    );
    lemma_tick_to(arm_base(3, h, j, effect, s), es, nothing, read, arm_state(7, h, j, effect, s));
    lemma_settle_arm(arm_base(3, h, j, effect, s), s, h, effect.ctx, 2, es, seq![effect.value]);
}

proof fn lemma_arm_step_8(h: HandlerView, j: nat, effect: EffectView, s: InterpreterView)
    requires
        identity_arm(h, j, effect, s),
    ensures
        run(arm_state(7, h, j, effect, s), 1) == Ok::<Progress, Fatal>(
            Progress::Running(arm_state(8, h, j, effect, s)),
        ),
{
    reveal(arm_state);
    let pop = EvalView::Step(Eval::PopScope(PopScope));
    let jump = EvalView::Step(Eval::ContinueInner(ContinueInner));
    let es = seq![pop, pop];
    assert(es.push(jump) =~= seq![pop, pop, jump]);
    lemma_arm_bases(h, j, effect, s);
    lemma_step_jump(arm_base(3, h, j, effect, s), s, h, effect.ctx, 2, es, effect.value);
    lemma_tick_to(
        arm_base(3, h, j, effect, s),
        es,
        seq![effect.value],
        jump,
        arm_state(8, h, j, effect, s),
    );
}

/// An arm that reads `continue x` answers an effect by resuming it with its
/// own payload. The machine has the handler as its next instruction and an
/// effect on top of the value stack, the handler's first arm for the
/// effect's symbol is `s: x => { continue x }`, and the payload is no effect
/// itself. Eight steps later the handler is installed again, the function
/// context that sent the effect is back on the machine, and the payload is
/// on top of its value stack: the `send` has yielded what it sent.
pub proof fn lemma_identity_arm_resumes(
    h: HandlerView,
    j: nat,
    effect: EffectView,
    s: InterpreterView,
)
    requires
        s.has_sub(),
        find_arm(h.symbols, h.node.match_arms@.len(), effect.symbol, 0) == Some(j),
        j < h.node.match_arms@.len(),
        resumes_with(&*h.node.match_arms@[j as int].block, h.node.match_arms@[j as int].param@),
        !(effect.value is Effect),
        effect.ctx.sub_contexts.len() > 0,
        effect.ctx.sub_contexts.last().evals.len() > 0,
    ensures
        run(
            s.plus(seq![EvalView::Handler(h)], seq![ValueView::Effect(Box::new(effect))]),
            8,
        ) == Ok::<Progress, Fatal>(
            Progress::Running(
                s.plus(seq![EvalView::Handler(h)], Seq::empty()).push_fn_context(
                    effect.ctx,
                ).plus(Seq::empty(), seq![effect.value]),
            ),
        ),
{
    lemma_arm_step_1(h, j, effect, s);
    lemma_arm_step_2(h, j, effect, s);
    lemma_arm_step_3(h, j, effect, s);
    lemma_arm_step_4(h, j, effect, s);
    lemma_arm_step_5(h, j, effect, s);
    lemma_arm_step_6(h, j, effect, s);
    lemma_arm_step_7(h, j, effect, s);
    lemma_arm_step_8(h, j, effect, s);
    lemma_run_splits(arm_state(0, h, j, effect, s), 1, 7);
    lemma_run_splits(arm_state(1, h, j, effect, s), 1, 6);
    lemma_run_splits(arm_state(2, h, j, effect, s), 1, 5);
    lemma_run_splits(arm_state(3, h, j, effect, s), 1, 4);
    lemma_run_splits(arm_state(4, h, j, effect, s), 1, 3);
    lemma_run_splits(arm_state(5, h, j, effect, s), 1, 2);
    lemma_run_splits(arm_state(6, h, j, effect, s), 1, 1);
    assert(arm_state(0, h, j, effect, s) == s.plus(
        seq![EvalView::Handler(h)],
        seq![ValueView::Effect(Box::new(effect))],
    )) by {
        reveal(arm_state);
    }
    assert(arm_state(8, h, j, effect, s) == s.plus(
        seq![EvalView::Handler(h)],
        Seq::empty(),
    ).push_fn_context(effect.ctx).plus(Seq::empty(), seq![effect.value])) by {
        reveal(arm_state);
    }
}

} // verus!
