//! The machine: a stack of function contexts, a symbol counter, and the
//! operations that instructions are made of.
//!
//! Each operation has a model on `InterpreterView` that says what it does to
//! the machine or with which fatal condition it stops.

use crate::ast::LetPattern;
use crate::eval::{evals_view, Eval, EvalView};
use crate::pattern::{bind_let, bind_pattern};
use crate::fatal::Fatal;
use crate::frame::{is_pattern_error, lemma_bind_let_sound};
use crate::symbols::error_codes::ERROR_CODE_FLOOR;
use crate::value::{function_context_view, lemma_values_view_drop_last, lemma_values_view_push, lemma_values_view_subrange, values_view, FunctionContext, FunctionContextView, Scope, ScopeView, SubContext, SubContextType, SubContextTypeView, SubContextView, Value, ValueView};
use std::rc::Rc;
use vstd::prelude::*;

verus! {

/// Hands out symbols in increasing order.
#[derive(Debug)]
pub struct SymbolGenerator {
    pub counter: u64,
}

/// The state of an evaluation.
#[derive(Debug)]
pub struct Interpreter {
    pub sym_gen: SymbolGenerator,
    pub fn_context_stack: Vec<FunctionContext>,
}

/// The model of the machine: the next symbol and the function contexts,
/// outermost first.
pub ghost struct InterpreterView {
    pub counter: u64,
    pub contexts: Seq<FunctionContextView>,
}

/// The models of a stack of function contexts, outermost first.
pub open spec fn function_contexts_view(s: Seq<FunctionContext>) -> Seq<FunctionContextView> {
    Seq::new(s.len(), |i: int| function_context_view(s[i]))
}

impl View for Interpreter {
    type V = InterpreterView;

    open spec fn view(&self) -> InterpreterView {
        InterpreterView {
            counter: self.sym_gen.counter,
            contexts: function_contexts_view(self.fn_context_stack@),
        }
    }
}

/// The scope that lies `n` frames outside `scope`, if the chain is that long.
pub open spec fn outer_scope(scope: ScopeView, n: nat) -> Option<ScopeView>
    decreases n,
{
    if n == 0 {
        Some(scope)
    } else {
        match scope.parent {
            None => None,
            Some(p) => outer_scope(*p, (n - 1) as nat),
        }
    }
}

impl SubContextView {
    /// A sub-context that has done nothing yet.
    pub open spec fn fresh(typ: SubContextTypeView) -> SubContextView {
        SubContextView { num_scopes: 0, typ, evals: Seq::empty(), values: Seq::empty() }
    }
}

impl FunctionContextView {
    /// A function context that has done nothing yet: one plain sub-context in
    /// the given scope.
    pub open spec fn fresh(scope: ScopeView) -> FunctionContextView {
        FunctionContextView {
            scope,
            sub_contexts: seq![SubContextView::fresh(SubContextTypeView::Plain)],
        }
    }
}

impl ScopeView {
    /// A frame without bindings inside `parent`.
    pub open spec fn child_of(parent: ScopeView) -> ScopeView {
        ScopeView { parent: Some(Box::new(parent)), bindings: Map::empty() }
    }
}

impl InterpreterView {
    /// Whether there is a current sub-context.
    pub open spec fn has_sub(self) -> bool {
        self.contexts.len() > 0 && self.contexts.last().sub_contexts.len() > 0
    }

    /// The current function context.
    pub open spec fn ctx(self) -> FunctionContextView {
        self.contexts.last()
    }

    /// The current sub-context.
    pub open spec fn sub(self) -> SubContextView {
        self.contexts.last().sub_contexts.last()
    }

    /// The machine with another function context in place of the current one.
    pub open spec fn with_ctx(self, c: FunctionContextView) -> InterpreterView {
        InterpreterView { contexts: self.contexts.update(self.contexts.len() - 1, c), ..self }
    }

    /// The machine with another sub-context in place of the current one.
    pub open spec fn with_sub(self, s: SubContextView) -> InterpreterView {
        self.with_ctx(
            FunctionContextView {
                sub_contexts: self.ctx().sub_contexts.update(self.ctx().sub_contexts.len() - 1, s),
                ..self.ctx()
            },
        )
    }

    /// The machine with another scope in the current function context.
    pub open spec fn with_scope(self, scope: ScopeView) -> InterpreterView {
        self.with_ctx(FunctionContextView { scope, ..self.ctx() })
    }

    /// `v` is put on top of the current value stack.
    pub open spec fn push_value(self, v: ValueView) -> Result<InterpreterView, Fatal> {
        if !self.has_sub() {
            Err(Fatal::NoContext)
        } else {
            Ok(self.with_sub(SubContextView { values: self.sub().values.push(v), ..self.sub() }))
        }
    }

    /// The value on top of the current value stack, and the machine without it.
    pub open spec fn pop_value(self) -> Result<(ValueView, InterpreterView), Fatal> {
        if !self.has_sub() {
            Err(Fatal::NoContext)
        } else if self.sub().values.len() == 0 {
            Err(Fatal::NoValue)
        } else {
            Ok(
                (
                    self.sub().values.last(),
                    self.with_sub(
                        SubContextView { values: self.sub().values.drop_last(), ..self.sub() },
                    ),
                ),
            )
        }
    }

    /// `e` is put on top of the current instruction stack, to run next.
    pub open spec fn push_eval(self, e: EvalView) -> Result<InterpreterView, Fatal> {
        if !self.has_sub() {
            Err(Fatal::NoContext)
        } else {
            Ok(self.with_sub(SubContextView { evals: self.sub().evals.push(e), ..self.sub() }))
        }
    }

    /// The instruction that runs next, and the machine without it.
    pub open spec fn pop_eval(self) -> Result<(EvalView, InterpreterView), Fatal> {
        if !self.has_sub() {
            Err(Fatal::NoContext)
        } else if self.sub().evals.len() == 0 {
            Err(Fatal::NoInstruction)
        } else {
            Ok(
                (
                    self.sub().evals.last(),
                    self.with_sub(
                        SubContextView { evals: self.sub().evals.drop_last(), ..self.sub() },
                    ),
                ),
            )
        }
    }

    /// `c` becomes the current function context.
    pub open spec fn push_fn_context(self, c: FunctionContextView) -> InterpreterView {
        InterpreterView { contexts: self.contexts.push(c), ..self }
    }

    /// The current function context, and the machine without it.
    pub open spec fn pop_fn_context(self) -> Result<(FunctionContextView, InterpreterView), Fatal> {
        if self.contexts.len() == 0 {
            Err(Fatal::NoContext)
        } else {
            Ok((self.ctx(), InterpreterView { contexts: self.contexts.drop_last(), ..self }))
        }
    }

    /// `s` becomes the current sub-context.
    pub open spec fn push_sub_context(self, s: SubContextView) -> Result<InterpreterView, Fatal> {
        if self.contexts.len() == 0 {
            Err(Fatal::NoContext)
        } else {
            Ok(
                self.with_ctx(
                    FunctionContextView {
                        sub_contexts: self.ctx().sub_contexts.push(s),
                        ..self.ctx()
                    },
                ),
            )
        }
    }

    /// Leaves the current sub-context: the scopes it opened are closed, and
    /// it comes off the stack.
    pub open spec fn pop_sub_context(self) -> Result<(SubContextView, InterpreterView), Fatal> {
        if !self.has_sub() {
            Err(Fatal::NoContext)
        } else {
            match outer_scope(self.ctx().scope, self.sub().num_scopes as nat) {
                None => Err(Fatal::NoScope),
                Some(scope) => Ok(
                    (
                        SubContextView { num_scopes: 0, ..self.sub() },
                        self.with_ctx(
                            FunctionContextView {
                                scope,
                                sub_contexts: self.ctx().sub_contexts.drop_last(),
                            },
                        ),
                    ),
                ),
            }
        }
    }

    /// Opens a scope inside the current one and counts it in the current
    /// sub-context.
    pub open spec fn push_scope(self) -> Result<InterpreterView, Fatal> {
        if !self.has_sub() {
            Err(Fatal::NoContext)
        } else if self.sub().num_scopes == u64::MAX {
            Err(Fatal::Overflow)
        } else {
            Ok(
                self.with_ctx(
                    FunctionContextView {
                        scope: ScopeView::child_of(self.ctx().scope),
                        sub_contexts: self.ctx().sub_contexts.update(
                            self.ctx().sub_contexts.len() - 1,
                            SubContextView {
                                num_scopes: (self.sub().num_scopes + 1) as u64,
                                ..self.sub()
                            },
                        ),
                    },
                ),
            )
        }
    }

    /// Closes the current scope and takes it off the count of the current
    /// sub-context.
    pub open spec fn pop_scope(self) -> Result<InterpreterView, Fatal> {
        if !self.has_sub() {
            Err(Fatal::NoContext)
        } else if self.sub().num_scopes == 0 || self.ctx().scope.parent is None {
            Err(Fatal::NoScope)
        } else {
            Ok(
                self.with_ctx(
                    FunctionContextView {
                        scope: *self.ctx().scope.parent->0,
                        sub_contexts: self.ctx().sub_contexts.update(
                            self.ctx().sub_contexts.len() - 1,
                            SubContextView {
                                num_scopes: (self.sub().num_scopes - 1) as u64,
                                ..self.sub()
                            },
                        ),
                    },
                ),
            )
        }
    }

    /// Replaces the current scope by a fresh child of it and hands out a
    /// second fresh child.
    pub open spec fn branch_scope(self) -> Result<(ScopeView, InterpreterView), Fatal> {
        if self.contexts.len() == 0 {
            Err(Fatal::NoContext)
        } else {
            Ok(
                (
                    ScopeView::child_of(self.ctx().scope),
                    self.with_scope(ScopeView::child_of(self.ctx().scope)),
                ),
            )
        }
    }

    /// Schedules all of `es`; the last of them runs first.
    pub open spec fn push_evals(self, es: Seq<EvalView>) -> Result<InterpreterView, Fatal> {
        if !self.has_sub() {
            Err(Fatal::NoContext)
        } else {
            Ok(self.with_sub(SubContextView { evals: self.sub().evals + es, ..self.sub() }))
        }
    }

    /// Takes the `n` values on top of the value stack, in the order in which
    /// they were pushed.
    pub open spec fn take_values(self, n: nat) -> Result<(Seq<ValueView>, InterpreterView), Fatal> {
        if !self.has_sub() {
            Err(Fatal::NoContext)
        } else if self.sub().values.len() < n {
            Err(Fatal::NoValue)
        } else {
            Ok(
                (
                    self.sub().values.subrange(
                        self.sub().values.len() - n,
                        self.sub().values.len() as int,
                    ),
                    self.with_sub(
                        SubContextView {
                            values: self.sub().values.subrange(0, self.sub().values.len() - n),
                            ..self.sub()
                        },
                    ),
                ),
            )
        }
    }

    /// Binds `v` by `pattern` in the frame of the current scope.
    pub open spec fn bind(self, pattern: LetPattern, v: ValueView) -> Result<InterpreterView, Fatal> {
        if self.contexts.len() == 0 {
            Err(Fatal::NoContext)
        } else {
            match bind_let(pattern, v, self.ctx().scope.bindings) {
                Err(e) => Err(e),
                Ok(f) => Ok(self.with_scope(ScopeView { bindings: f, ..self.ctx().scope })),
            }
        }
    }

    /// What `name` stands for in the current scope.
    pub open spec fn resolve(self, name: Seq<char>) -> Result<ValueView, Fatal> {
        if self.contexts.len() == 0 {
            Err(Fatal::NoContext)
        } else {
            match self.ctx().scope.resolve(name) {
                None => Err(Fatal::Unresolved),
                Some(v) => Ok(v),
            }
        }
    }

    /// The next symbol, as long as it lies below the reserved ones.
    pub open spec fn gen_symbol(self) -> Result<(ValueView, InterpreterView), Fatal> {
        if self.counter >= ERROR_CODE_FLOOR {
            Err(Fatal::SymbolsExhausted)
        } else {
            Ok(
                (
                    ValueView::Symbol(self.counter),
                    InterpreterView { counter: (self.counter + 1) as u64, ..self },
                ),
            )
        }
    }
}

/// `r`, and then `e` scheduled.
pub open spec fn then_eval(r: Result<InterpreterView, Fatal>, e: EvalView) -> Result<
    InterpreterView,
    Fatal,
> {
    match r {
        Ok(s) => s.push_eval(e),
        Err(e) => Err(e),
    }
}

/// `r`, and then `v` put on the value stack.
pub open spec fn then_value(r: Result<InterpreterView, Fatal>, v: ValueView) -> Result<
    InterpreterView,
    Fatal,
> {
    match r {
        Ok(s) => s.push_value(v),
        Err(e) => Err(e),
    }
}

/// The two values on top of the value stack, the lower one first, and the
/// machine without them.
pub open spec fn pop_pair(s: InterpreterView) -> Result<
    (ValueView, ValueView, InterpreterView),
    Fatal,
> {
    match s.pop_value() {
        Err(e) => Err(e),
        Ok((upper, s1)) => match s1.pop_value() {
            Err(e) => Err(e),
            Ok((lower, s2)) => Ok((lower, upper, s2)),
        },
    }
}

/// Scheduling one more instruction after a batch is scheduling the longer
/// batch.
pub proof fn lemma_push_evals_push(s: InterpreterView, es: Seq<EvalView>, e: EvalView)
    ensures
        then_eval(s.push_evals(es), e) == s.push_evals(es.push(e)),
{
    if s.has_sub() {
        let s1 = s.push_evals(es)->Ok_0;
        assert(s1.sub().evals.push(e) =~= s.sub().evals + es.push(e));
        assert(s1.ctx().sub_contexts.update(
            s1.ctx().sub_contexts.len() - 1,
            SubContextView { evals: s1.sub().evals.push(e), ..s1.sub() },
        ) =~= s.ctx().sub_contexts.update(
            s.ctx().sub_contexts.len() - 1,
            SubContextView { evals: s.sub().evals + es.push(e), ..s.sub() },
        ));
        assert(then_eval(s.push_evals(es), e)->Ok_0.contexts =~= s.push_evals(
            es.push(e),
        )->Ok_0.contexts);
    }
}

/// Scheduling nothing leaves a machine with a current sub-context as it is.
pub proof fn lemma_push_evals_empty(s: InterpreterView)
    requires
        s.has_sub(),
    ensures
        s.push_evals(Seq::empty()) == Ok::<InterpreterView, Fatal>(s),
{
    assert(s.sub().evals + Seq::<EvalView>::empty() =~= s.sub().evals);
    assert(s.ctx().sub_contexts.update(s.ctx().sub_contexts.len() - 1, s.sub())
        =~= s.ctx().sub_contexts);
    assert(s.contexts.update(s.contexts.len() - 1, s.ctx()) =~= s.contexts);
}

/// Whether an operation that changes the machine did what its model says.
pub open spec fn done(
    r: Result<(), Fatal>,
    post: InterpreterView,
    want: Result<InterpreterView, Fatal>,
) -> bool {
    match want {
        Ok(s) => r is Ok && post == s,
        Err(e) => r == Err::<(), Fatal>(e),
    }
}

/// Whether an operation that takes a value off the machine did what its model
/// says.
pub open spec fn took(
    r: Result<Value, Fatal>,
    post: InterpreterView,
    want: Result<(ValueView, InterpreterView), Fatal>,
) -> bool {
    match want {
        Ok((v, s)) => r is Ok && r->Ok_0@ == v && post == s,
        Err(e) => r == Err::<Value, Fatal>(e),
    }
}

impl SymbolGenerator {
    pub fn new() -> (g: SymbolGenerator)
        ensures
            g.counter == 0,
    {
        SymbolGenerator { counter: 0 }
    }

    /// The next symbol. The generator stops short of the reserved symbols.
    pub fn gen(&mut self) -> (r: Result<Value, Fatal>)
        ensures
            match r {
                Ok(v) => {
                    &&& old(self).counter < ERROR_CODE_FLOOR
                    &&& v == Value::Symbol(old(self).counter)
                    &&& final(self).counter == old(self).counter + 1
                },
                Err(e) => {
                    &&& e == Fatal::SymbolsExhausted
                    &&& old(self).counter >= ERROR_CODE_FLOOR
                    &&& final(self).counter == old(self).counter
                },
            },
    {
        let n = self.counter;
        if n >= ERROR_CODE_FLOOR {
            return Err(Fatal::SymbolsExhausted);
        }
        self.counter = n + 1;
        Ok(Value::Symbol(n))
    }
}

impl SubContext {
    pub fn new(typ: SubContextType) -> (c: SubContext)
        ensures
            c.num_scopes == 0,
            c.typ == typ,
            c.eval_stack@.len() == 0,
            c.value_stack@.len() == 0,
            c@ == SubContextView::fresh(typ@),
    {
        let c = SubContext { num_scopes: 0, typ, eval_stack: Vec::new(), value_stack: Vec::new() };
        assert(c@.evals =~= Seq::empty());
        assert(c@.values =~= Seq::empty());
        c
    }
}

impl FunctionContext {
    pub fn new(scope: Rc<Scope>) -> (c: FunctionContext)
        ensures
            c.scope == scope,
            c.sub_context_stack@.len() == 1,
            c@ == FunctionContextView::fresh(scope@),
    {
        let mut subs = Vec::new();
        subs.push(SubContext::new(SubContextType::Plain));
        let c = FunctionContext { scope, sub_context_stack: subs };
        assert(c@.sub_contexts =~= seq![SubContextView::fresh(SubContextTypeView::Plain)]);
        c
    }
}

/// Replacing the current sub-context of the current function context replaces
/// it in the model.
pub proof fn lemma_view_with_sub(pre: Interpreter, post: Interpreter, sub: SubContext)
    requires
        pre@.has_sub(),
        post.sym_gen == pre.sym_gen,
        post.fn_context_stack@.len() == pre.fn_context_stack@.len(),
        forall|i: int|
            0 <= i < pre.fn_context_stack@.len() - 1 ==> post.fn_context_stack@[i]
                == pre.fn_context_stack@[i],
        post.fn_context_stack@.last().scope == pre.fn_context_stack@.last().scope,
        post.fn_context_stack@.last().sub_context_stack@
            == pre.fn_context_stack@.last().sub_context_stack@.update(
            pre.fn_context_stack@.last().sub_context_stack@.len() - 1,
            sub,
        ),
    ensures
        post@ == pre@.with_sub(sub@),
{
    let n = pre.fn_context_stack@.len() - 1;
    assert(post@.contexts[n].sub_contexts =~= pre@.ctx().sub_contexts.update(
        pre@.ctx().sub_contexts.len() - 1,
        sub@,
    ));
    assert(post@.contexts =~= pre@.with_sub(sub@).contexts);
}

/// Replacing the current function context replaces it in the model.
pub proof fn lemma_view_with_ctx(pre: Interpreter, post: Interpreter, ctx: FunctionContext)
    requires
        pre.fn_context_stack@.len() > 0,
        post.sym_gen == pre.sym_gen,
        post.fn_context_stack@ == pre.fn_context_stack@.update(
            pre.fn_context_stack@.len() - 1,
            ctx,
        ),
    ensures
        post@ == pre@.with_ctx(ctx@),
{
    assert(post@.contexts =~= pre@.with_ctx(ctx@).contexts);
}

impl Interpreter {
    /// Whether there is a current sub-context.
    pub fn is_live(&self) -> (r: bool)
        ensures
            r == self@.has_sub(),
            r == (self.fn_context_stack@.len() > 0
                && self.fn_context_stack@.last().sub_context_stack@.len() > 0),
    {
        let n = self.fn_context_stack.len();
        n > 0 && self.fn_context_stack[n - 1].sub_context_stack.len() > 0
    }

    /// The function context on top of the stack.
    pub fn current_fn_context(&mut self) -> (r: &mut FunctionContext)
        requires
            old(self).fn_context_stack@.len() > 0,
        ensures
            *r == old(self).fn_context_stack@.last(),
            final(self).sym_gen == old(self).sym_gen,
            final(self).fn_context_stack@ == old(self).fn_context_stack@.update(
                old(self).fn_context_stack@.len() - 1,
                *final(r),
            ),
    {
        let n = self.fn_context_stack.len();
        &mut self.fn_context_stack[n - 1]
    }

    /// The sub-context on top of the current function context.
    pub fn current_sub_context(&mut self) -> (r: &mut SubContext)
        requires
            old(self)@.has_sub(),
        ensures
            *r == old(self).fn_context_stack@.last().sub_context_stack@.last(),
            final(self).sym_gen == old(self).sym_gen,
            final(self).fn_context_stack@.len() == old(self).fn_context_stack@.len(),
            forall|i: int|
                0 <= i < old(self).fn_context_stack@.len() - 1 ==> final(self).fn_context_stack@[i]
                    == old(self).fn_context_stack@[i],
            final(self).fn_context_stack@.last().scope == old(self).fn_context_stack@.last().scope,
            final(self).fn_context_stack@.last().sub_context_stack@ == old(
                self,
            ).fn_context_stack@.last().sub_context_stack@.update(
                old(self).fn_context_stack@.last().sub_context_stack@.len() - 1,
                *final(r),
            ),
    {
        let n = self.fn_context_stack.len();
        let ctx = &mut self.fn_context_stack[n - 1];
        let m = ctx.sub_context_stack.len();
        &mut ctx.sub_context_stack[m - 1]
    }

    /// Puts a value on the current value stack.
    pub fn push_value(&mut self, value: Value) -> (r: Result<(), Fatal>)
        ensures
            done(r, final(self)@, old(self)@.push_value(value@)),
    {
        if !self.is_live() {
            return Err(Fatal::NoContext);
        }
        let ghost pre = *self;
        let sub = self.current_sub_context();
        proof {
            lemma_values_view_push(sub.value_stack@, value);
        }
        sub.value_stack.push(value);
        proof {
            lemma_view_with_sub(pre, *self, self.fn_context_stack@.last().sub_context_stack@.last());
        }
        Ok(())
    }

    /// Takes the top value off the current value stack.
    pub fn pop_value(&mut self) -> (r: Result<Value, Fatal>)
        ensures
            took(r, final(self)@, old(self)@.pop_value()),
    {
        if !self.is_live() {
            return Err(Fatal::NoContext);
        }
        let ghost pre = *self;
        let sub = self.current_sub_context();
        proof {
            if sub.value_stack@.len() > 0 {
                lemma_values_view_drop_last(sub.value_stack@);
            }
        }
        match sub.value_stack.pop() {
            None => Err(Fatal::NoValue),
            Some(v) => {
                proof {
                    lemma_view_with_sub(
                        pre,
                        *self,
                        self.fn_context_stack@.last().sub_context_stack@.last(),
                    );
                }
                Ok(v)
            },
        }
    }

    /// The instruction stack of the current sub-context.
    pub fn current_eval_stack(&mut self) -> (r: &mut Vec<Eval>)
        requires
            old(self)@.has_sub(),
        ensures
            *r == old(self).fn_context_stack@.last().sub_context_stack@.last().eval_stack,
            final(self).sym_gen == old(self).sym_gen,
            final(self).fn_context_stack@.len() == old(self).fn_context_stack@.len(),
            forall|i: int|
                0 <= i < old(self).fn_context_stack@.len() - 1 ==> final(self).fn_context_stack@[i]
                    == old(self).fn_context_stack@[i],
            final(self).fn_context_stack@.last().scope == old(self).fn_context_stack@.last().scope,
            final(self).fn_context_stack@.last().sub_context_stack@ == old(
                self,
            ).fn_context_stack@.last().sub_context_stack@.update(
                old(self).fn_context_stack@.last().sub_context_stack@.len() - 1,
                SubContext {
                    eval_stack: *final(r),
                    ..old(self).fn_context_stack@.last().sub_context_stack@.last()
                },
            ),
    {
        &mut self.current_sub_context().eval_stack
    }

    /// The value stack of the current sub-context.
    pub fn current_value_stack(&mut self) -> (r: &mut Vec<Value>)
        requires
            old(self)@.has_sub(),
        ensures
            *r == old(self).fn_context_stack@.last().sub_context_stack@.last().value_stack,
            final(self).sym_gen == old(self).sym_gen,
            final(self).fn_context_stack@.len() == old(self).fn_context_stack@.len(),
            forall|i: int|
                0 <= i < old(self).fn_context_stack@.len() - 1 ==> final(self).fn_context_stack@[i]
                    == old(self).fn_context_stack@[i],
            final(self).fn_context_stack@.last().scope == old(self).fn_context_stack@.last().scope,
            final(self).fn_context_stack@.last().sub_context_stack@ == old(
                self,
            ).fn_context_stack@.last().sub_context_stack@.update(
                old(self).fn_context_stack@.last().sub_context_stack@.len() - 1,
                SubContext {
                    value_stack: *final(r),
                    ..old(self).fn_context_stack@.last().sub_context_stack@.last()
                },
            ),
    {
        &mut self.current_sub_context().value_stack
    }

    /// The scope of the current function context.
    pub fn current_scope(&mut self) -> (r: &mut Rc<Scope>)
        requires
            old(self).fn_context_stack@.len() > 0,
        ensures
            *r == old(self).fn_context_stack@.last().scope,
            final(self).sym_gen == old(self).sym_gen,
            final(self).fn_context_stack@ == old(self).fn_context_stack@.update(
                old(self).fn_context_stack@.len() - 1,
                FunctionContext { scope: *final(r), ..old(self).fn_context_stack@.last() },
            ),
    {
        &mut self.current_fn_context().scope
    }

    /// Puts an instruction on the current instruction stack. It runs before
    /// those pushed earlier.
    pub fn push_eval(&mut self, eval: Eval) -> (r: Result<(), Fatal>)
        ensures
            done(r, final(self)@, old(self)@.push_eval(eval@)),
    {
        if !self.is_live() {
            return Err(Fatal::NoContext);
        }
        let ghost pre = *self;
        let sub = self.current_sub_context();
        proof {
            assert(evals_view(sub.eval_stack@.push(eval)) =~= evals_view(sub.eval_stack@).push(
                eval@,
            ));
        }
        sub.eval_stack.push(eval);
        proof {
            lemma_view_with_sub(pre, *self, self.fn_context_stack@.last().sub_context_stack@.last());
        }
        Ok(())
    }

    /// Takes the next instruction off the current instruction stack.
    pub fn pop_eval(&mut self) -> (r: Result<Eval, Fatal>)
        ensures
            match old(self)@.pop_eval() {
                Ok((e, s)) => r is Ok && r->Ok_0@ == e && final(self)@ == s,
                Err(e) => r == Err::<Eval, Fatal>(e),
            },
    {
        if !self.is_live() {
            return Err(Fatal::NoContext);
        }
        let ghost pre = *self;
        let sub = self.current_sub_context();
        proof {
            if sub.eval_stack@.len() > 0 {
                assert(evals_view(sub.eval_stack@.drop_last()) =~= evals_view(
                    sub.eval_stack@,
                ).drop_last());
            }
        }
        match sub.eval_stack.pop() {
            None => Err(Fatal::NoInstruction),
            Some(e) => {
                proof {
                    lemma_view_with_sub(
                        pre,
                        *self,
                        self.fn_context_stack@.last().sub_context_stack@.last(),
                    );
                }
                Ok(e)
            },
        }
    }

    /// Enters a function context.
    pub fn push_fn_context(&mut self, ctx: FunctionContext)
        ensures
            final(self)@ == old(self)@.push_fn_context(ctx@),
            final(self).fn_context_stack@ == old(self).fn_context_stack@.push(ctx),
            final(self).sym_gen == old(self).sym_gen,
    {
        self.fn_context_stack.push(ctx);
        assert(self@.contexts =~= old(self)@.push_fn_context(ctx@).contexts);
    }

    /// Leaves the current function context and hands it out.
    pub fn pop_fn_context(&mut self) -> (r: Result<FunctionContext, Fatal>)
        ensures
            match old(self)@.pop_fn_context() {
                Ok((c, s)) => r is Ok && r->Ok_0@ == c && final(self)@ == s,
                Err(e) => r == Err::<FunctionContext, Fatal>(e),
            },
            r is Ok ==> r->Ok_0 == old(self).fn_context_stack@.last()
                && final(self).fn_context_stack@ == old(self).fn_context_stack@.drop_last()
                && final(self).sym_gen == old(self).sym_gen,
    {
        match self.fn_context_stack.pop() {
            None => Err(Fatal::NoContext),
            Some(c) => {
                assert(self@.contexts =~= old(self)@.contexts.drop_last());
                Ok(c)
            },
        }
    }

    /// Opens a sub-context in the current function context.
    pub fn push_sub_context(&mut self, ctx: SubContext) -> (r: Result<(), Fatal>)
        ensures
            done(r, final(self)@, old(self)@.push_sub_context(ctx@)),
    {
        if self.fn_context_stack.len() == 0 {
            return Err(Fatal::NoContext);
        }
        let ghost pre = *self;
        let top = self.current_fn_context();
        top.sub_context_stack.push(ctx);
        proof {
            let after = self.fn_context_stack@.last();
            assert(after@.sub_contexts =~= pre@.ctx().sub_contexts.push(ctx@));
            lemma_view_with_ctx(pre, *self, after);
        }
        Ok(())
    }

    /// Leaves the current sub-context and hands it out. The scopes that were
    /// opened in it and not closed are closed first.
    pub fn pop_sub_context(&mut self) -> (r: Result<SubContext, Fatal>)
        ensures
            match old(self)@.pop_sub_context() {
                Ok((c, s)) => r is Ok && r->Ok_0@ == c && final(self)@ == s,
                Err(e) => r == Err::<SubContext, Fatal>(e),
            },
            r is Ok ==> r->Ok_0.typ
                == old(self).fn_context_stack@.last().sub_context_stack@.last().typ,
    {
        if !self.is_live() {
            return Err(Fatal::NoContext);
        }
        let ghost pre = *self;
        let mut top = match self.fn_context_stack.pop() {
            Some(c) => c,
            None => {
                return Err(Fatal::NoContext);
            },
        };
        let mut sub = match top.sub_context_stack.pop() {
            Some(c) => c,
            None => {
                return Err(Fatal::NoContext);
            },
        };
        let mut scope = top.scope;
        let mut left: u64 = sub.num_scopes;
        while left > 0
            invariant
                pre == *old(self),
                pre@.has_sub(),
                outer_scope(scope@, left as nat) == outer_scope(
                    pre@.ctx().scope,
                    pre@.sub().num_scopes as nat,
                ),
            decreases left,
        {
            let parent = match &scope.parent {
                Some(p) => p.clone(),
                None => {
                    assert(scope@.parent is None);
                    return Err(Fatal::NoScope);
                },
            };
            scope = parent;
            left -= 1;
        }
        sub.num_scopes = 0;
        let back = FunctionContext { scope, sub_context_stack: top.sub_context_stack };
        proof {
            assert(back@.sub_contexts =~= pre@.ctx().sub_contexts.drop_last());
        }
        self.fn_context_stack.push(back);
        proof {
            assert(self.fn_context_stack@ =~= pre.fn_context_stack@.update(
                pre.fn_context_stack@.len() - 1,
                back,
            ));
            lemma_view_with_ctx(pre, *self, back);
        }
        Ok(sub)
    }

    /// Opens a scope inside the current one.
    pub fn push_scope(&mut self) -> (r: Result<(), Fatal>)
        ensures
            done(r, final(self)@, old(self)@.push_scope()),
    {
        if !self.is_live() {
            return Err(Fatal::NoContext);
        }
        let ghost pre = *self;
        let top = self.current_fn_context();
        let m = top.sub_context_stack.len();
        if top.sub_context_stack[m - 1].num_scopes == u64::MAX {
            return Err(Fatal::Overflow);
        }
        let inner = Scope::extend(top.scope.clone());
        top.scope = inner;
        let n = top.sub_context_stack[m - 1].num_scopes;
        top.sub_context_stack[m - 1].num_scopes = n + 1;
        proof {
            let after = self.fn_context_stack@.last();
            assert(after@.sub_contexts =~= pre@.ctx().sub_contexts.update(
                pre@.ctx().sub_contexts.len() - 1,
                SubContextView { num_scopes: (pre@.sub().num_scopes + 1) as u64, ..pre@.sub() },
            ));
            lemma_view_with_ctx(pre, *self, after);
        }
        Ok(())
    }

    /// Closes the current scope.
    pub fn pop_scope(&mut self) -> (r: Result<(), Fatal>)
        ensures
            done(r, final(self)@, old(self)@.pop_scope()),
    {
        if !self.is_live() {
            return Err(Fatal::NoContext);
        }
        let ghost pre = *self;
        let top = self.current_fn_context();
        let m = top.sub_context_stack.len();
        let n = top.sub_context_stack[m - 1].num_scopes;
        if n == 0 {
            return Err(Fatal::NoScope);
        }
        let parent = match &top.scope.parent {
            Some(p) => p.clone(),
            None => {
                return Err(Fatal::NoScope);
            },
        };
        top.scope = parent;
        top.sub_context_stack[m - 1].num_scopes = n - 1;
        proof {
            let after = self.fn_context_stack@.last();
            assert(after@.sub_contexts =~= pre@.ctx().sub_contexts.update(
                pre@.ctx().sub_contexts.len() - 1,
                SubContextView { num_scopes: (pre@.sub().num_scopes - 1) as u64, ..pre@.sub() },
            ));
            lemma_view_with_ctx(pre, *self, after);
        }
        Ok(())
    }

    /// Splits the scope chain for a closure: the current scope is replaced by
    /// a fresh child of it, and a second fresh child is handed out for the
    /// closure to keep. The frame they share is closed to both from then on.
    pub fn branch_scope(&mut self) -> (r: Result<Rc<Scope>, Fatal>)
        ensures
            match old(self)@.branch_scope() {
                Ok((c, s)) => r is Ok && r->Ok_0@ == c && final(self)@ == s,
                Err(e) => r == Err::<Rc<Scope>, Fatal>(e),
            },
    {
        if self.fn_context_stack.len() == 0 {
            return Err(Fatal::NoContext);
        }
        let ghost pre = *self;
        let top = self.current_fn_context();
        let scope1 = Scope::extend(top.scope.clone());
        let scope2 = Scope::extend(top.scope.clone());
        top.scope = scope1;
        proof {
            let after = self.fn_context_stack@.last();
            lemma_view_with_ctx(pre, *self, after);
        }
        Ok(scope2)
    }

    /// A fresh symbol.
    pub fn gen_symbol(&mut self) -> (r: Result<Value, Fatal>)
        ensures
            took(r, final(self)@, old(self)@.gen_symbol()),
    {
        self.sym_gen.gen()
    }

    /// Takes the `n` values on top of the value stack, in the order in which
    /// they were pushed.
    pub fn take_values(&mut self, n: usize) -> (r: Result<Vec<Value>, Fatal>)
        ensures
            match old(self)@.take_values(n as nat) {
                Ok((vs, s)) => r is Ok && values_view(r->Ok_0@) == vs && r->Ok_0@.len() == n
                    && final(self)@ == s,
                Err(e) => r == Err::<Vec<Value>, Fatal>(e),
            },
    {
        if !self.is_live() {
            return Err(Fatal::NoContext);
        }
        let ghost pre = *self;
        let sub = self.current_sub_context();
        let len = sub.value_stack.len();
        if len < n {
            return Err(Fatal::NoValue);
        }
        proof {
            lemma_values_view_subrange(sub.value_stack@, 0, len - n);
            lemma_values_view_subrange(sub.value_stack@, len - n, len as int);
        }
        let top = sub.value_stack.split_off(len - n);
        proof {
            lemma_view_with_sub(pre, *self, self.fn_context_stack@.last().sub_context_stack@.last());
        }
        Ok(top)
    }

    /// Binds `value` by `pattern` in the frame of the current scope. The
    /// frame must be held by the current function context alone.
    pub fn bind(&mut self, pattern: &LetPattern, value: Value) -> (r: Result<(), Fatal>)
        ensures
            r == Err::<(), Fatal>(Fatal::Aliased) || done(
                r,
                final(self)@,
                old(self)@.bind(*pattern, value@),
            ),
            old(self)@.contexts.len() == 0 <==> r == Err::<(), Fatal>(Fatal::NoContext),
            r == Err::<(), Fatal>(Fatal::Aliased) ==> old(self)@.contexts.len() > 0,
            r is Err ==> r == Err::<(), Fatal>(Fatal::NoContext) || r == Err::<(), Fatal>(
                Fatal::Aliased,
            ) || is_pattern_error(r->Err_0),
    {
        let ghost pre = *self;
        proof {
            if self@.contexts.len() > 0 {
                lemma_bind_let_sound(pattern, value@, self@.ctx().scope.bindings);
            }
        }
        let top = match self.fn_context_stack.pop() {
            Some(c) => c,
            None => {
                return Err(Fatal::NoContext);
            },
        };
        let FunctionContext { scope, sub_context_stack } = top;
        match Rc::try_unwrap(scope) {
            Err(_) => Err(Fatal::Aliased),
            Ok(frame) => {
                let mut frame = frame;
                bind_pattern(&mut frame.bindings, pattern, value)?;
                let back = FunctionContext { scope: Rc::new(frame), sub_context_stack };
                self.fn_context_stack.push(back);
                proof {
                    assert(self.fn_context_stack@ =~= pre.fn_context_stack@.update(
                        pre.fn_context_stack@.len() - 1,
                        back,
                    ));
                    lemma_view_with_ctx(pre, *self, back);
                }
                Ok(())
            },
        }
    }

    /// Binds `name` to `value` in the frame of the current scope.
    pub fn create_binding(&mut self, name: String, value: Value) -> (r: Result<(), Fatal>)
        ensures
            r == Err::<(), Fatal>(Fatal::Aliased) || done(
                r,
                final(self)@,
                old(self)@.bind(LetPattern::Ident(name), value@),
            ),
            old(self)@.contexts.len() == 0 <==> r == Err::<(), Fatal>(Fatal::NoContext),
            old(self)@.contexts.len() > 0 ==> r is Ok || r == Err::<(), Fatal>(Fatal::Aliased),
    {
        let pattern = LetPattern::Ident(name);
        self.bind(&pattern, value)
    }

    /// A handle on what `name` stands for in the current scope.
    pub fn lookup(&self, name: &String) -> (r: Result<Value, Fatal>)
        ensures
            match self@.resolve(name@) {
                Err(e) => r == Err::<Value, Fatal>(e),
                Ok(v) => if v is Effect {
                    r == Err::<Value, Fatal>(Fatal::EffectCloned)
                } else {
                    r is Ok && r->Ok_0@ == v
                },
            },
    {
        let n = self.fn_context_stack.len();
        if n == 0 {
            return Err(Fatal::NoContext);
        }
        match Scope::resolve_binding(&self.fn_context_stack[n - 1].scope, name) {
            None => Err(Fatal::Unresolved),
            Some(v) => match v.try_clone() {
                Some(x) => Ok(x),
                None => Err(Fatal::EffectCloned),
            },
        }
    }
}

} // verus!
