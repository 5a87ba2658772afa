//! The data of a running program and its mathematical model.
//!
//! Lists, objects, closures and scopes are shared by reference count. The
//! model forgets the sharing: a list is the sequence of its items, an object
//! and a frame of bindings are maps, a scope is a frame with its parent.

use crate::ast::Function;
use crate::eval::{evals_view, Eval, EvalView, Handler, HandlerView, LoopContext};
use crate::intrinsics::Intrinsic;
use std::rc::Rc;
use vstd::prelude::*;

verus! {

/// A key of an object.
#[derive(Debug)]
pub enum Key {
    Null,
    Bool(bool),
    Int(i64),
    Symbol(u64),
    Str(String),
}

/// The model of a key.
pub ghost enum KeyView {
    Null,
    Bool(bool),
    Int(i64),
    Symbol(u64),
    Str(Seq<char>),
}

impl View for Key {
    type V = KeyView;

    open spec fn view(&self) -> KeyView {
        match self {
            Key::Null => KeyView::Null,
            Key::Bool(b) => KeyView::Bool(*b),
            Key::Int(i) => KeyView::Int(*i),
            Key::Symbol(s) => KeyView::Symbol(*s),
            Key::Str(s) => KeyView::Str(s@),
        }
    }
}

/// A map from keys to values, kept as a list of entries. Where a key occurs
/// more than once, the last entry counts.
#[derive(Debug)]
pub struct Table {
    pub entries: Vec<(Key, Value)>,
}

/// A value of the language.
#[derive(Debug)]
pub enum Value {
    Null,
    Bool(bool),
    Int(i64),
    List(Rc<Vec<Value>>),
    Object(Rc<Table>),
    Closure(Rc<Closure>),
    Symbol(u64),
    Effect(Box<Effect>),
    Intrinsic(Intrinsic),
}

/// A function together with the scope it was written in.
#[derive(Debug)]
pub struct Closure {
    pub code: Rc<Function>,
    pub parent_scope: Rc<Scope>,
}

/// What `send` makes: the symbol and payload that were sent, and the function
/// context that sent them, ready to be resumed.
#[derive(Debug)]
pub struct Effect {
    pub symbol: u64,
    pub value: Value,
    pub ctx: FunctionContext,
}

/// A frame of bindings and the scope around it.
#[derive(Debug)]
pub struct Scope {
    pub parent: Option<Rc<Scope>>,
    pub bindings: Table,
}

/// Why a sub-context was opened, with what `continue` needs to resume.
#[derive(Debug)]
pub enum SubContextType {
    Plain,
    Handle(Rc<Handler>, Box<FunctionContext>),
    Loop(Rc<LoopContext>),
}

/// The unit of work that `continue` and `break` abandon: a stack of
/// instructions, a stack of values, and the number of scopes opened so far.
#[derive(Debug)]
pub struct SubContext {
    pub num_scopes: u64,
    pub typ: SubContextType,
    pub eval_stack: Vec<Eval>,
    pub value_stack: Vec<Value>,
}

/// The unit that `send` captures: the scope of a running function and its
/// stack of sub-contexts.
#[derive(Debug)]
pub struct FunctionContext {
    pub scope: Rc<Scope>,
    pub sub_context_stack: Vec<SubContext>,
}

/// The model of a value.
pub ghost enum ValueView {
    Null,
    Bool(bool),
    Int(i64),
    List(Seq<ValueView>),
    Object(Map<KeyView, ValueView>),
    Closure(ClosureView),
    Symbol(u64),
    Effect(Box<EffectView>),
    Intrinsic(Intrinsic),
}

/// The model of a closure.
pub ghost struct ClosureView {
    pub code: Function,
    pub parent_scope: ScopeView,
}

/// The model of an effect.
pub ghost struct EffectView {
    pub symbol: u64,
    pub value: ValueView,
    pub ctx: FunctionContextView,
}

/// The model of a scope: its own frame and the scope around it.
pub ghost struct ScopeView {
    pub parent: Option<Box<ScopeView>>,
    pub bindings: Map<KeyView, ValueView>,
}

/// The model of the reason for which a sub-context was opened.
pub ghost enum SubContextTypeView {
    Plain,
    Handle(HandlerView, Box<FunctionContextView>),
    Loop(LoopContext),
}

/// The model of a sub-context. The stacks have their top at the end.
pub ghost struct SubContextView {
    pub num_scopes: u64,
    pub typ: SubContextTypeView,
    pub evals: Seq<EvalView>,
    pub values: Seq<ValueView>,
}

/// The model of a function context. The innermost sub-context is the last.
pub ghost struct FunctionContextView {
    pub scope: ScopeView,
    pub sub_contexts: Seq<SubContextView>,
}

/// The map that a list of entries stands for: each entry is inserted in
/// turn, so a later entry replaces an earlier one with the same key.
pub open spec fn entries_view(s: Seq<(Key, Value)>) -> Map<KeyView, ValueView>
    decreases s, 0nat,
{
    if s.len() == 0 {
        Map::empty()
    } else {
        entries_view(s.drop_last()).insert(s.last().0@, value_view(s.last().1))
    }
}

/// The models of a sequence of values, item by item.
pub open spec fn values_view(s: Seq<Value>) -> Seq<ValueView>
    decreases s, 0nat,
{
    Seq::new(
        s.len(),
        |i: int|
            if 0 <= i < s.len() {
                value_view(s[i])
            } else {
                ValueView::Null
            },
    )
}

/// The model of a scope.
pub open spec fn scope_view(s: Scope) -> ScopeView
    decreases s,
{
    ScopeView {
        parent: match s.parent {
            None => None,
            Some(p) => Some(Box::new(scope_view(*p))),
        },
        bindings: entries_view(s.bindings.entries@),
    }
}

/// The model of the reason for which a sub-context was opened.
pub open spec fn sub_context_type_view(t: SubContextType) -> SubContextTypeView
    decreases t,
{
    match t {
        SubContextType::Plain => SubContextTypeView::Plain,
        SubContextType::Handle(h, ctx) => SubContextTypeView::Handle(
            h@,
            Box::new(function_context_view(*ctx)),
        ),
        SubContextType::Loop(l) => SubContextTypeView::Loop(*l),
    }
}

/// The model of a sub-context.
pub open spec fn sub_context_view(c: SubContext) -> SubContextView
    decreases c,
{
    SubContextView {
        num_scopes: c.num_scopes,
        typ: sub_context_type_view(c.typ),
        evals: evals_view(c.eval_stack@),
        values: values_view(c.value_stack@),
    }
}

/// The models of a stack of sub-contexts, outermost first.
pub open spec fn sub_contexts_view(s: Seq<SubContext>) -> Seq<SubContextView>
    decreases s, 0nat,
{
    Seq::new(
        s.len(),
        |i: int|
            if 0 <= i < s.len() {
                sub_context_view(s[i])
            } else {
                arbitrary()
            },
    )
}

/// The model of a function context.
pub open spec fn function_context_view(c: FunctionContext) -> FunctionContextView
    decreases c,
{
    FunctionContextView {
        scope: scope_view(*c.scope),
        sub_contexts: sub_contexts_view(c.sub_context_stack@),
    }
}

/// The model of a value.
pub open spec fn value_view(v: Value) -> ValueView
    decreases v,
{
    match v {
        Value::Null => ValueView::Null,
        Value::Bool(b) => ValueView::Bool(b),
        Value::Int(i) => ValueView::Int(i),
        Value::List(l) => ValueView::List(values_view(l@)),
        Value::Object(o) => ValueView::Object(entries_view(o.entries@)),
        Value::Closure(c) => ValueView::Closure(
            ClosureView { code: *c.code, parent_scope: scope_view(*c.parent_scope) },
        ),
        Value::Symbol(s) => ValueView::Symbol(s),
        Value::Effect(e) => ValueView::Effect(
            Box::new(
                EffectView {
                    symbol: e.symbol,
                    value: value_view(e.value),
                    ctx: function_context_view(e.ctx),
                },
            ),
        ),
        Value::Intrinsic(i) => ValueView::Intrinsic(i),
    }
}

impl View for Value {
    type V = ValueView;

    open spec fn view(&self) -> ValueView {
        value_view(*self)
    }
}

impl View for Table {
    type V = Map<KeyView, ValueView>;

    open spec fn view(&self) -> Map<KeyView, ValueView> {
        entries_view(self.entries@)
    }
}

impl View for Scope {
    type V = ScopeView;

    open spec fn view(&self) -> ScopeView {
        scope_view(*self)
    }
}

impl View for SubContextType {
    type V = SubContextTypeView;

    open spec fn view(&self) -> SubContextTypeView {
        sub_context_type_view(*self)
    }
}

impl View for SubContext {
    type V = SubContextView;

    open spec fn view(&self) -> SubContextView {
        sub_context_view(*self)
    }
}

impl View for FunctionContext {
    type V = FunctionContextView;

    open spec fn view(&self) -> FunctionContextView {
        function_context_view(*self)
    }
}

impl View for Closure {
    type V = ClosureView;

    open spec fn view(&self) -> ClosureView {
        ClosureView { code: *self.code, parent_scope: scope_view(*self.parent_scope) }
    }
}

impl View for Effect {
    type V = EffectView;

    open spec fn view(&self) -> EffectView {
        EffectView {
            symbol: self.symbol,
            value: value_view(self.value),
            ctx: function_context_view(self.ctx),
        }
    }
}

impl Value {
    /// A second handle on the same value. Lists, objects and closures are
    /// shared, not copied. An effect has one owner and cannot be cloned.
    pub fn try_clone(&self) -> (r: Option<Value>)
        ensures
            match r {
                Some(v) => !(self is Effect) && v == *self,
                None => self is Effect,
            },
    {
        match self {
            Value::Null => Some(Value::Null),
            Value::Bool(b) => Some(Value::Bool(*b)),
            Value::Int(i) => Some(Value::Int(*i)),
            Value::List(l) => Some(Value::List(l.clone())),
            Value::Object(o) => Some(Value::Object(o.clone())),
            Value::Closure(c) => Some(Value::Closure(c.clone())),
            Value::Symbol(s) => Some(Value::Symbol(*s)),
            Value::Effect(_) => None,
            Value::Intrinsic(i) => Some(Value::Intrinsic(*i)),
        }
    }

    /// Whether the value has one owner by its kind. That holds of an effect
    /// and of nothing else: every other value is copied or shared freely.
    pub fn is_mut(&self) -> (r: bool)
        ensures
            r == (self is Effect),
    {
        match self {
            Value::Effect(_) => true,
            _ => false,
        }
    }

    /// The table of an object.
    pub fn unwrap_object(&self) -> (r: Rc<Table>)
        requires
            self is Object,
        ensures
            r == self->Object_0,
    {
        match self {
            Value::Object(o) => o.clone(),
            _ => Rc::new(Table { entries: Vec::new() }),
        }
    }

    /// The number of a symbol.
    pub fn unwrap_symbol(&self) -> (r: u64)
        requires
            self is Symbol,
        ensures
            r == self->Symbol_0,
    {
        match self {
            Value::Symbol(s) => *s,
            _ => 0,
        }
    }

    /// The number of an integer.
    pub fn unwrap_int(&self) -> (r: i64)
        requires
            self is Int,
        ensures
            r == self->Int_0,
    {
        match self {
            Value::Int(i) => *i,
            _ => 0,
        }
    }
}

impl Closure {
    pub fn new(code: Rc<Function>, scope: Rc<Scope>) -> (c: Closure)
        ensures
            c.code == code,
            c.parent_scope == scope,
    {
        Closure { code, parent_scope: scope }
    }
}

/// Pushing a value onto a stack pushes its model onto the stack's model.
pub proof fn lemma_values_view_push(s: Seq<Value>, v: Value)
    ensures
        values_view(s.push(v)) == values_view(s).push(v@),
{
    assert(values_view(s.push(v)) =~= values_view(s).push(v@));
}

/// Dropping the top of a stack drops the top of its model.
pub proof fn lemma_values_view_drop_last(s: Seq<Value>)
    requires
        s.len() > 0,
    ensures
        values_view(s.drop_last()) == values_view(s).drop_last(),
        values_view(s).last() == s.last()@,
{
    assert(values_view(s.drop_last()) =~= values_view(s).drop_last());
}

/// The model of a part of a sequence is that part of the model.
pub proof fn lemma_values_view_subrange(s: Seq<Value>, from: int, to: int)
    requires
        0 <= from <= to <= s.len(),
    ensures
        values_view(s.subrange(from, to)) == values_view(s).subrange(from, to),
{
    assert(values_view(s.subrange(from, to)) =~= values_view(s).subrange(from, to));
}

/// The model of two sequences joined is the two models joined.
pub proof fn lemma_values_view_add(a: Seq<Value>, b: Seq<Value>)
    ensures
        values_view(a + b) == values_view(a) + values_view(b),
{
    assert(values_view(a + b) =~= values_view(a) + values_view(b));
}

} // verus!
