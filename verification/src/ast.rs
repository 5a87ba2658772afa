//! The syntax tree of a Kal program.
//!
//! The tree is immutable once built. Nodes that the evaluator has to keep hold
//! of while their operands are computed sit behind an `Rc`, so that scheduling
//! them never copies a subtree.

use std::rc::Rc;
use vstd::prelude::*;

verus! {

/// The literal `null`.
#[derive(Debug)]
pub struct Null;

/// A boolean literal.
#[derive(Debug)]
pub struct Bool(pub bool);

/// An integer literal.
#[derive(Debug)]
pub struct Int(pub i64);

/// What stands on the left of `=` in a `let`.
#[derive(Debug)]
pub enum LetPattern {
    Ident(String),
    List(ListPattern),
    Object(ObjectPattern),
}

/// `let pattern = expr;`
#[derive(Debug)]
pub struct LetStatement {
    pub pattern: Rc<LetPattern>,
    pub expr: Rc<Expression>,
}

/// `location = expr;`
#[derive(Debug)]
pub struct Assignment {
    pub location: LocationChain,
    pub expr: Rc<Expression>,
}

/// `-expr`
#[derive(Debug)]
pub struct NegativeExpression {
    pub expr: Rc<Expression>,
}

/// `not expr`
#[derive(Debug)]
pub struct NotExpression {
    pub expr: Rc<Expression>,
}

/// `left and right`, `left or right`, `left xor right`
#[derive(Debug)]
pub struct BooleanExpression {
    pub left: Rc<Expression>,
    pub right: Rc<Expression>,
    pub operator: BooleanOperator,
}

/// The boolean operators.
#[derive(Debug, Clone, Copy, PartialEq, Eq, Structural)]
pub enum BooleanOperator {
    And,
    Or,
    Xor,
}

/// `base.prop`
#[derive(Debug)]
pub struct DotExpression {
    pub base: Rc<Expression>,
    pub prop: String,
}

/// `base[index]`
#[derive(Debug)]
pub struct IndexExpression {
    pub base: Rc<Expression>,
    pub index: Rc<Expression>,
}

/// `left == right` and the other five comparisons.
#[derive(Debug)]
pub struct ComparisonExpression {
    pub left: Rc<Expression>,
    pub right: Rc<Expression>,
    pub operator: ComparisonOperator,
}

/// The comparisons.
#[derive(Debug, Clone, Copy, PartialEq, Eq, Structural)]
pub enum ComparisonOperator {
    Equal,
    NotEqual,
    LessEqual,
    Less,
    GreaterEqual,
    Greater,
}

/// `left + right` and the other three arithmetic operations.
#[derive(Debug)]
pub struct NumericExpression {
    pub left: Rc<Expression>,
    pub right: Rc<Expression>,
    pub operator: NumericOperator,
}

/// The arithmetic operators.
#[derive(Debug, Clone, Copy, PartialEq, Eq, Structural)]
pub enum NumericOperator {
    Add,
    Multiply,
    Subtract,
    Divide,
}

/// `if c1 { .. } else if c2 { .. } else { .. }`
#[derive(Debug)]
pub struct IfExpression {
    pub else_body: Option<Rc<Block>>,
    pub ifs: Vec<IfPart>,
}

/// One condition of an `if` with the block it guards.
#[derive(Debug)]
pub struct IfPart {
    pub cond: Rc<Expression>,
    pub body: Rc<Block>,
}

/// `loop { .. }`
#[derive(Debug)]
pub struct LoopExpression {
    pub body: Rc<Block>,
}

/// `fn(pattern) { body }`
#[derive(Debug)]
pub struct Function {
    pub body: Rc<Block>,
    pub pattern: Rc<ListPattern>,
}

/// `{ statements; expression }`
#[derive(Debug)]
pub struct Block {
    pub expression: Option<Rc<Expression>>,
    pub statements: Vec<Rc<Statement>>,
}

/// `base(elems)`
#[derive(Debug)]
pub struct FunctionInvocation {
    pub base: Rc<Expression>,
    pub elems: Vec<ListElem>,
}

/// `{ key: expr, ...expr }`
#[derive(Debug)]
pub struct Object {
    pub elems: Vec<ObjectElem>,
}

/// An element of an object literal.
#[derive(Debug)]
pub enum ObjectElem {
    Kv(String, Rc<Expression>),
    Spread(Rc<Expression>),
}

/// `[expr, ...expr]`
#[derive(Debug)]
pub struct List {
    pub elems: Vec<ListElem>,
}

/// An element of a list literal or an argument of a call.
#[derive(Debug)]
pub enum ListElem {
    Spread(Rc<Expression>),
    Elem(Rc<Expression>),
}

/// `handle expr { symbol: param => block, .. }`
#[derive(Debug)]
pub struct Handle {
    pub expr: Rc<Expression>,
    pub match_arms: Vec<HandleMatch>,
}

/// One arm of a `handle`: the name bound to the effect's symbol, the name that
/// receives its payload, and the block to run.
#[derive(Debug)]
pub struct HandleMatch {
    pub symbol: String,
    pub param: String,
    pub block: Rc<Block>,
}

/// `send symbol expr`
#[derive(Debug)]
pub struct SendExpr {
    pub symbol: String,
    pub expr: Option<Rc<Expression>>,
}

/// `continue expr`
#[derive(Debug)]
pub struct Continue {
    pub expr: Option<Rc<Expression>>,
}

/// `break expr`
#[derive(Debug)]
pub struct Break {
    pub expr: Option<Rc<Expression>>,
}

/// A base followed by `.field` and `[index]` parts.
#[derive(Debug)]
pub struct LocationChain {
    pub base: LocationChainBase,
    pub parts: Vec<Location>,
}

/// Where a location chain starts: at a name or at the value of an expression.
#[derive(Debug)]
pub enum LocationChainBase {
    Ident(String),
    Expression(Rc<Expression>),
}

/// One part of a location chain.
#[derive(Debug)]
pub enum Location {
    Dot(DotLocation),
    Index(IndexLocation),
}

/// `.prop`
#[derive(Debug)]
pub struct DotLocation {
    pub prop: String,
}

/// `[index]`
#[derive(Debug)]
pub struct IndexLocation {
    pub index: Rc<Expression>,
}

/// The `...` of a list pattern, with or without a name for the middle slice.
#[derive(Debug)]
pub enum SpreadPattern {
    Unnamed,
    Named(String),
}

/// What a list pattern does with one item: bind it to a name, or take it apart
/// by a nested pattern.
#[derive(Debug)]
pub enum ListSubPattern {
    Ident(String),
    List(Box<ListPattern>),
    Object(Box<ObjectPattern>),
}

/// `[before.., ...spread, after..]`. Without a spread the pattern takes exactly
/// `before_params.len()` items.
#[derive(Debug)]
pub struct ListPattern {
    pub before_params: Vec<ListSubPattern>,
    pub spread_and_after_params: Option<(SpreadPattern, Vec<ListSubPattern>)>,
}

/// A field of an object pattern: the field bound under its own name, or
/// taken apart further by a nested pattern.
#[derive(Debug)]
pub enum ObjectSubPattern {
    Ident(String),
    List(String, Box<ListPattern>),
    Object(String, Box<ObjectPattern>),
}

/// What an object pattern does with the fields it did not name.
#[derive(Debug)]
pub enum ObjectFinalPosition {
    /// No tail: fields that the pattern does not name are left alone.
    Absent,
    Spread(String),
    SpreadNameless,
    Wildcard,
}

/// `{ params.., tail }`. Every field that `params` names must be there.
#[derive(Debug)]
pub struct ObjectPattern {
    pub params: Vec<ObjectSubPattern>,
    pub final_param: ObjectFinalPosition,
}

/// Everything that evaluates to a value.
#[derive(Debug)]
pub enum Expression {
    Null(Null),
    Bool(Bool),
    Int(Int),
    /// A literal that mints a fresh symbol each time it is evaluated.
    Symbol,
    Ident(String),
    Negative(NegativeExpression),
    Not(NotExpression),
    Boolean(BooleanExpression),
    Dot(DotExpression),
    Index(IndexExpression),
    Comparison(ComparisonExpression),
    Numeric(NumericExpression),
    If(Rc<IfExpression>),
    Loop(LoopExpression),
    Function(Rc<Function>),
    Block(Rc<Block>),
    Invocation(Rc<FunctionInvocation>),
    Object(Rc<Object>),
    List(Rc<List>),
    Handle(Rc<Handle>),
    Send(SendExpr),
    Continue(Continue),
    Break(Break),
    Location(Rc<LocationChain>),
}

/// An expression whose value is dropped once it has been computed.
#[derive(Debug)]
pub struct ExpressionStatement {
    pub expr: Rc<Expression>,
}

/// Everything that can stand in a block before its trailing expression.
#[derive(Debug)]
pub enum Statement {
    Expression(ExpressionStatement),
    Let(LetStatement),
    Assignment(Rc<Assignment>),
}

/// Conversion of a node into a statement.
pub trait IntoStatement {
    /// The statement that `into_statement` builds.
    spec fn as_statement(self) -> Statement;

    fn into_statement(self) -> (s: Statement)
        ensures
            s == self.as_statement(),
    ;
}

impl IntoStatement for Expression {
    open spec fn as_statement(self) -> Statement {
        Statement::Expression(ExpressionStatement { expr: Rc::new(self) })
    }

    fn into_statement(self) -> (s: Statement) {
        Statement::Expression(ExpressionStatement { expr: Rc::new(self) })
    }
}

impl IntoStatement for LetStatement {
    open spec fn as_statement(self) -> Statement {
        Statement::Let(self)
    }

    fn into_statement(self) -> (s: Statement) {
        Statement::Let(self)
    }
}

impl IntoStatement for Assignment {
    open spec fn as_statement(self) -> Statement {
        Statement::Assignment(Rc::new(self))
    }

    fn into_statement(self) -> (s: Statement) {
        Statement::Assignment(Rc::new(self))
    }
}

/// Whether every one of `subs` binds its item to a name.
pub open spec fn all_names(subs: Seq<ListSubPattern>) -> bool {
    forall|i: int| 0 <= i < subs.len() ==> (#[trigger] subs[i]) is Ident
}

/// Whether every one of `params` binds its field to a name.
pub open spec fn all_fields(params: Seq<ObjectSubPattern>) -> bool {
    forall|i: int| 0 <= i < params.len() ==> (#[trigger] params[i]) is Ident
}

/// Whether every one of `subs` binds its item to a name.
pub fn names_only(subs: &Vec<ListSubPattern>) -> (r: bool)
    ensures
        r == all_names(subs@),
{
    let mut i: usize = 0;
    while i < subs.len()
        invariant
            0 <= i <= subs@.len(),
            forall|j: int| 0 <= j < i ==> (#[trigger] subs@[j]) is Ident,
        decreases subs@.len() - i,
    {
        match &subs[i] {
            ListSubPattern::Ident(_) => {},
            _ => {
                assert(!(subs@[i as int] is Ident));
                return false;
            },
        }
        i += 1;
    }
    true
}

impl ObjectPattern {
    /// Whether the pattern takes a field apart by a nested pattern.
    pub open spec fn takes_apart(self) -> bool {
        !all_fields(self.params@)
    }

    /// Whether the pattern takes a field apart by a nested pattern.
    pub fn nests(&self) -> (r: bool)
        ensures
            r == self.takes_apart(),
    {
        let mut i: usize = 0;
        while i < self.params.len()
            invariant
                0 <= i <= self.params@.len(),
                forall|j: int| 0 <= j < i ==> (#[trigger] self.params@[j]) is Ident,
            decreases self.params@.len() - i,
        {
            match &self.params[i] {
                ObjectSubPattern::Ident(_) => {},
                _ => {
                    assert(!(self.params@[i as int] is Ident));
                    return true;
                },
            }
            i += 1;
        }
        false
    }
}

impl ListPattern {
    /// Whether the pattern takes an item apart by a nested pattern.
    pub open spec fn takes_apart(self) -> bool {
        !all_names(self.before_params@) || match self.spread_and_after_params {
            None => false,
            Some((_, after)) => !all_names(after@),
        }
    }

    /// The least number of items the pattern takes.
    pub open spec fn min_len(self) -> nat {
        match self.spread_and_after_params {
            None => self.before_params@.len(),
            Some((_, after)) => self.before_params@.len() + after@.len(),
        }
    }

    /// Whether the pattern takes a list of `n` items: exactly its length
    /// without a spread, at least `min_len` with one.
    pub open spec fn accepts(self, n: nat) -> bool {
        match self.spread_and_after_params {
            None => n == self.before_params@.len(),
            Some(_) => n >= self.min_len(),
        }
    }

    /// Whether the pattern takes an item apart by a nested pattern.
    pub fn nests(&self) -> (r: bool)
        ensures
            r == self.takes_apart(),
    {
        if !names_only(&self.before_params) {
            return true;
        }
        match &self.spread_and_after_params {
            None => false,
            Some((_, after)) => !names_only(after),
        }
    }

    /// Whether the pattern takes a list of `n` items.
    pub fn takes(&self, n: usize) -> (r: bool)
        ensures
            r == self.accepts(n as nat),
    {
        match &self.spread_and_after_params {
            None => n == self.before_params.len(),
            Some((_, after)) => {
                n >= self.before_params.len() && n - self.before_params.len() >= after.len()
            },
        }
    }
}

} // verus!
