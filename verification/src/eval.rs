//! The instructions of the machine.
//!
//! Evaluating an expression means pushing its instruction. An instruction
//! either produces a value at once or schedules its operands followed by a
//! combining step that takes their values off the value stack.

use crate::ast::{
    Assignment, Block, BooleanOperator, ComparisonOperator, Expression, FunctionInvocation,
    Handle, IfExpression, LetPattern, List, LocationChain, NumericOperator, Object, Statement,
};
use std::rc::Rc;
use vstd::prelude::*;

verus! {

/// What a combining step does with the values of its operands.
#[derive(Debug)]
pub enum Combiner {
    ObjectInner(Rc<Object>),
    ComparisonInner(ComparisonOperator),
    ListInner(Rc<List>),
    AssignmentInner(Rc<Assignment>),
    NotInner,
    IgnoreValue,
    NumericInner(NumericOperator),
    BooleanInner(BooleanOperator),
    NegativeInner,
    DotInner(String),
    IndexInner,
    FunctionInvocationInner(Rc<FunctionInvocation>),
    WrapperFunctionInner,
    LocationChainInner(Rc<LocationChain>),
    IntrinsicSymbol,
}

/// A combining step under the name that traces show for it.
#[derive(Debug)]
pub struct Custom {
    pub name: &'static str,
    pub function: Combiner,
}

impl Custom {
    pub fn new(name: &'static str, function: Combiner) -> (c: Custom)
        ensures
            c == (Custom { name, function }),
    {
        Custom { name, function }
    }
}

/// Tests the conditions of an `if` one after the other, starting at `index`.
#[derive(Debug)]
pub struct IfInner {
    pub index: usize,
    pub node: Rc<IfExpression>,
}

/// One round of a loop: the body, then itself again.
#[derive(Debug)]
pub struct LoopBody {
    pub body: Rc<Block>,
}

/// Opens the sub-context of a loop. Runs when the loop starts and after every
/// `continue`.
#[derive(Debug)]
pub struct LoopContext {
    pub body: Rc<Block>,
}

/// Closes the innermost scope.
#[derive(Debug)]
pub struct PopScope;

/// Opens a scope.
#[derive(Debug)]
pub struct PushScope;

/// Binds the value on top of the value stack by a pattern.
#[derive(Debug)]
pub struct LetInner {
    pub pattern: Rc<LetPattern>,
}

/// Sends the error effect with the given code.
#[derive(Debug)]
pub struct Error {
    pub code: u64,
}

impl Error {
    pub fn new(code: u64) -> (e: Error)
        ensures
            e.code == code,
    {
        Error { code }
    }
}

/// Collects the symbols of a `handle`'s arms and installs its handler.
#[derive(Debug)]
pub struct CreateHandler {
    pub node: Rc<Handle>,
}

/// An installed handler: the arms of `node`, each with the symbol its name
/// stood for when the `handle` was entered.
#[derive(Debug)]
pub struct Handler {
    pub symbols: Vec<u64>,
    pub node: Rc<Handle>,
}

/// Turns the current function context into an effect value.
#[derive(Debug)]
pub struct SendInner;

/// Leaves the current sub-context and resumes what it interrupted.
#[derive(Debug)]
pub struct ContinueInner;

/// Leaves the current sub-context with a value.
#[derive(Debug)]
pub struct BreakInner;

/// Runs an expression in a function context of its own.
#[derive(Debug)]
pub struct WrapperFunction {
    pub body: Rc<Expression>,
}

/// Lets an integer pass and raises `TYPE_ERROR_INT` for anything else.
#[derive(Debug)]
pub struct CheckTypeInt {
    pub first: bool,
}

/// Lets every integer but the least one pass and raises `INT_MIN_NEGATION`
/// for that.
#[derive(Debug)]
pub struct CheckIntMin {
    pub first: bool,
}

/// Lets an object pass and raises `TYPE_ERROR_OBJECT` for anything else.
#[derive(Debug)]
pub struct CheckTypeObject {
    pub first: bool,
}

/// An instruction.
#[derive(Debug)]
pub enum Eval {
    Expression(Rc<Expression>),
    Statement(Rc<Statement>),
    Block(Rc<Block>),
    Custom(Custom),
    IfInner(IfInner),
    LoopBody(LoopBody),
    LoopContext(Rc<LoopContext>),
    PopScope(PopScope),
    PushScope(PushScope),
    LetInner(LetInner),
    Error(Error),
    CreateHandler(CreateHandler),
    Handler(Rc<Handler>),
    SendInner(SendInner),
    ContinueInner(ContinueInner),
    BreakInner(BreakInner),
    WrapperFunction(WrapperFunction),
    CheckTypeInt(CheckTypeInt),
    CheckIntMin(CheckIntMin),
    CheckTypeObject(CheckTypeObject),
}

/// The model of a handler.
pub ghost struct HandlerView {
    pub symbols: Seq<u64>,
    pub node: Handle,
}

impl View for Handler {
    type V = HandlerView;

    open spec fn view(&self) -> HandlerView {
        HandlerView { symbols: self.symbols@, node: *self.node }
    }
}

/// The model of an instruction. Only a handler holds data that is made while
/// the program runs; every other instruction stands for itself.
pub ghost enum EvalView {
    Handler(HandlerView),
    Step(Eval),
}

impl View for Eval {
    type V = EvalView;

    open spec fn view(&self) -> EvalView {
        match self {
            Eval::Handler(h) => EvalView::Handler(h@),
            _ => EvalView::Step(*self),
        }
    }
}

/// The models of a stack of instructions, bottom first.
pub open spec fn evals_view(s: Seq<Eval>) -> Seq<EvalView> {
    Seq::new(s.len(), |i: int| s[i]@)
}

/// Conversion of a node into the instruction that evaluates it.
pub trait IntoEval {
    /// The instruction that `into_eval` builds.
    spec fn as_eval(self) -> Eval;

    fn into_eval(self) -> (e: Eval)
        ensures
            e == self.as_eval(),
    ;
}

impl IntoEval for Rc<Expression> {
    open spec fn as_eval(self) -> Eval {
        Eval::Expression(self)
    }

    fn into_eval(self) -> (e: Eval) {
        Eval::Expression(self)
    }
}

impl IntoEval for Rc<Statement> {
    open spec fn as_eval(self) -> Eval {
        Eval::Statement(self)
    }

    fn into_eval(self) -> (e: Eval) {
        Eval::Statement(self)
    }
}

impl IntoEval for Rc<Block> {
    open spec fn as_eval(self) -> Eval {
        Eval::Block(self)
    }

    fn into_eval(self) -> (e: Eval) {
        Eval::Block(self)
    }
}

impl IntoEval for Custom {
    open spec fn as_eval(self) -> Eval {
        Eval::Custom(self)
    }

    fn into_eval(self) -> (e: Eval) {
        Eval::Custom(self)
    }
}

/// The model of the instruction that evaluates `e`.
pub open spec fn expression(e: Rc<Expression>) -> EvalView {
    EvalView::Step(Eval::Expression(e))
}

/// The model of the instruction that runs `b`.
pub open spec fn block(b: Rc<Block>) -> EvalView {
    EvalView::Step(Eval::Block(b))
}

/// The model of a combining step.
pub open spec fn custom(name: &'static str, function: Combiner) -> EvalView {
    EvalView::Step(Eval::Custom(Custom { name, function }))
}

impl Custom {
    pub fn short_name(&self) -> (r: &'static str)
        ensures
            r == self.name,
    {
        self.name
    }
}

} // verus!
