//! Constructors for syntax trees, for programs that are written down in Rust.

use crate::ast::{
    Assignment, Block, Bool, BooleanExpression, BooleanOperator, Break, ComparisonExpression,
    ComparisonOperator, Continue, DotExpression, DotLocation, Expression, ExpressionStatement,
    Function, FunctionInvocation, Handle, HandleMatch, IfExpression, IfPart, IndexExpression,
    IndexLocation, Int, LetPattern, LetStatement, List, ListElem, ListPattern, ListSubPattern,
    Location, LocationChain, LocationChainBase, LoopExpression, NegativeExpression,
    NotExpression, Null, NumericExpression, NumericOperator, Object, ObjectElem, SendExpr,
    Statement,
};
use std::rc::Rc;
use vstd::prelude::*;

verus! {

/// `null`
pub fn null() -> (e: Rc<Expression>)
    ensures
        *e == Expression::Null(Null),
{
    Rc::new(Expression::Null(Null))
}

/// `true` or `false`
pub fn boolean(b: bool) -> (e: Rc<Expression>)
    ensures
        *e == Expression::Bool(Bool(b)),
{
    Rc::new(Expression::Bool(Bool(b)))
}

/// An integer literal.
pub fn integer(i: i64) -> (e: Rc<Expression>)
    ensures
        *e == Expression::Int(Int(i)),
{
    Rc::new(Expression::Int(Int(i)))
}

/// The literal that mints a symbol.
pub fn fresh_symbol() -> (e: Rc<Expression>)
    ensures
        *e == Expression::Symbol,
{
    Rc::new(Expression::Symbol)
}

/// A name.
pub fn ident(name: &str) -> (e: Rc<Expression>)
    ensures
        *e is Ident,
        e->Ident_0@ == name@,
{
    Rc::new(Expression::Ident(name.to_owned()))
}

/// `-expr`
pub fn negative(expr: Rc<Expression>) -> (e: Rc<Expression>)
    ensures
        *e == Expression::Negative(NegativeExpression { expr }),
{
    Rc::new(Expression::Negative(NegativeExpression { expr }))
}

/// `not expr`
pub fn not(expr: Rc<Expression>) -> (e: Rc<Expression>)
    ensures
        *e == Expression::Not(NotExpression { expr }),
{
    Rc::new(Expression::Not(NotExpression { expr }))
}

/// `left operator right` for a boolean operator.
pub fn connective(operator: BooleanOperator, left: Rc<Expression>, right: Rc<Expression>) -> (e:
    Rc<Expression>)
    ensures
        *e == Expression::Boolean(BooleanExpression { left, right, operator }),
{
    Rc::new(Expression::Boolean(BooleanExpression { left, right, operator }))
}

/// `left operator right` for a comparison.
pub fn comparison(operator: ComparisonOperator, left: Rc<Expression>, right: Rc<Expression>) -> (e:
    Rc<Expression>)
    ensures
        *e == Expression::Comparison(ComparisonExpression { left, right, operator }),
{
    Rc::new(Expression::Comparison(ComparisonExpression { left, right, operator }))
}

/// `left operator right` for an arithmetic operator.
pub fn numeric(operator: NumericOperator, left: Rc<Expression>, right: Rc<Expression>) -> (e: Rc<
    Expression,
>)
    ensures
        *e == Expression::Numeric(NumericExpression { left, right, operator }),
{
    Rc::new(Expression::Numeric(NumericExpression { left, right, operator }))
}

/// `base.prop`
pub fn dot(base: Rc<Expression>, prop: &str) -> (e: Rc<Expression>)
    ensures
        *e is Dot,
        e->Dot_0.base == base,
        e->Dot_0.prop@ == prop@,
{
    Rc::new(Expression::Dot(DotExpression { base, prop: prop.to_owned() }))
}

/// `base[index]`
pub fn index(base: Rc<Expression>, at: Rc<Expression>) -> (e: Rc<Expression>)
    ensures
        *e == Expression::Index(IndexExpression { base, index: at }),
{
    Rc::new(Expression::Index(IndexExpression { base, index: at }))
}

/// A plain element of a list literal or an argument of a call.
pub fn elem(expr: Rc<Expression>) -> (e: ListElem)
    ensures
        e == ListElem::Elem(expr),
{
    ListElem::Elem(expr)
}

/// `...expr` in a list literal or in the arguments of a call.
pub fn spread_elem(expr: Rc<Expression>) -> (e: ListElem)
    ensures
        e == ListElem::Spread(expr),
{
    ListElem::Spread(expr)
}

/// `[elems]`
pub fn list(elems: Vec<ListElem>) -> (e: Rc<Expression>)
    ensures
        *e is List,
        e->List_0.elems == elems,
{
    Rc::new(Expression::List(Rc::new(List { elems })))
}

/// `name: expr` in an object literal.
pub fn kv(name: &str, expr: Rc<Expression>) -> (e: ObjectElem)
    ensures
        e is Kv,
        e->Kv_0@ == name@,
        e->Kv_1 == expr,
{
    ObjectElem::Kv(name.to_owned(), expr)
}

/// `...expr` in an object literal.
pub fn spread_object(expr: Rc<Expression>) -> (e: ObjectElem)
    ensures
        e == ObjectElem::Spread(expr),
{
    ObjectElem::Spread(expr)
}

/// `{elems}`
pub fn object(elems: Vec<ObjectElem>) -> (e: Rc<Expression>)
    ensures
        *e is Object,
        e->Object_0.elems == elems,
{
    Rc::new(Expression::Object(Rc::new(Object { elems })))
}

/// `{ statements; expression }`
pub fn block(statements: Vec<Rc<Statement>>, tail: Option<Rc<Expression>>) -> (b: Rc<Block>)
    ensures
        b.statements == statements,
        b.expression == tail,
{
    Rc::new(Block { expression: tail, statements })
}

/// A block as an expression.
pub fn block_expression(b: Rc<Block>) -> (e: Rc<Expression>)
    ensures
        *e == Expression::Block(b),
{
    Rc::new(Expression::Block(b))
}

/// `expr;`
pub fn expression_statement(expr: Rc<Expression>) -> (s: Rc<Statement>)
    ensures
        *s == Statement::Expression(ExpressionStatement { expr }),
{
    Rc::new(Statement::Expression(ExpressionStatement { expr }))
}

/// `let name = expr;`
pub fn let_name(name: &str, expr: Rc<Expression>) -> (s: Rc<Statement>)
    ensures
        *s is Let,
        s->Let_0.expr == expr,
        *s->Let_0.pattern is Ident,
        s->Let_0.pattern->Ident_0@ == name@,
{
    Rc::new(
        Statement::Let(
            LetStatement { pattern: Rc::new(LetPattern::Ident(name.to_owned())), expr },
        ),
    )
}

/// `let pattern = expr;`
pub fn let_pattern(pattern: LetPattern, expr: Rc<Expression>) -> (s: Rc<Statement>)
    ensures
        *s is Let,
        s->Let_0.expr == expr,
        *s->Let_0.pattern == pattern,
{
    Rc::new(Statement::Let(LetStatement { pattern: Rc::new(pattern), expr }))
}

/// `.prop` in a location.
pub fn dot_part(prop: &str) -> (l: Location)
    ensures
        l is Dot,
        l->Dot_0.prop@ == prop@,
{
    Location::Dot(DotLocation { prop: prop.to_owned() })
}

/// `[index]` in a location.
pub fn index_part(at: Rc<Expression>) -> (l: Location)
    ensures
        l == Location::Index(IndexLocation { index: at }),
{
    Location::Index(IndexLocation { index: at })
}

/// The location `name` followed by `parts`.
pub fn location(name: &str, parts: Vec<Location>) -> (l: LocationChain)
    ensures
        l.base is Ident,
        l.base->Ident_0@ == name@,
        l.parts == parts,
{
    LocationChain { base: LocationChainBase::Ident(name.to_owned()), parts }
}

/// The location `base` followed by `parts`, as an expression.
pub fn location_expression(base: Rc<Expression>, parts: Vec<Location>) -> (e: Rc<Expression>)
    ensures
        *e is Location,
        e->Location_0.base == LocationChainBase::Expression(base),
        e->Location_0.parts == parts,
{
    Rc::new(
        Expression::Location(
            Rc::new(LocationChain { base: LocationChainBase::Expression(base), parts }),
        ),
    )
}

/// `location = expr;`
pub fn assignment(location: LocationChain, expr: Rc<Expression>) -> (s: Rc<Statement>)
    ensures
        *s is Assignment,
        *s->Assignment_0 == (Assignment { location, expr }),
{
    Rc::new(Statement::Assignment(Rc::new(Assignment { location, expr })))
}

/// One condition of an `if` with the block it guards.
pub fn if_part(cond: Rc<Expression>, body: Rc<Block>) -> (p: IfPart)
    ensures
        p == (IfPart { cond, body }),
{
    IfPart { cond, body }
}

/// `if .. else if .. else ..`
pub fn if_else(ifs: Vec<IfPart>, else_body: Option<Rc<Block>>) -> (e: Rc<Expression>)
    ensures
        *e is If,
        *e->If_0 == (IfExpression { else_body, ifs }),
{
    Rc::new(Expression::If(Rc::new(IfExpression { else_body, ifs })))
}

/// `loop body`
pub fn repeat(body: Rc<Block>) -> (e: Rc<Expression>)
    ensures
        *e == Expression::Loop(LoopExpression { body }),
{
    Rc::new(Expression::Loop(LoopExpression { body }))
}

/// A parameter that is a name.
pub fn param(name: &str) -> (p: ListSubPattern)
    ensures
        p is Ident,
        p->Ident_0@ == name@,
{
    ListSubPattern::Ident(name.to_owned())
}

/// A list pattern without a spread.
pub fn exactly(params: Vec<ListSubPattern>) -> (p: ListPattern)
    ensures
        p.before_params == params,
        p.spread_and_after_params is None,
{
    ListPattern { before_params: params, spread_and_after_params: None }
}

/// `fn(pattern) body`
pub fn function(pattern: ListPattern, body: Rc<Block>) -> (e: Rc<Expression>)
    ensures
        *e is Function,
        e->Function_0.body == body,
        *e->Function_0.pattern == pattern,
{
    Rc::new(Expression::Function(Rc::new(Function { body, pattern: Rc::new(pattern) })))
}

/// `base(elems)`
pub fn call(base: Rc<Expression>, elems: Vec<ListElem>) -> (e: Rc<Expression>)
    ensures
        *e is Invocation,
        *e->Invocation_0 == (FunctionInvocation { base, elems }),
{
    Rc::new(Expression::Invocation(Rc::new(FunctionInvocation { base, elems })))
}

/// `symbol: param => block`
pub fn arm(symbol: &str, parameter: &str, body: Rc<Block>) -> (a: HandleMatch)
    ensures
        a.symbol@ == symbol@,
        a.param@ == parameter@,
        a.block == body,
{
    HandleMatch { symbol: symbol.to_owned(), param: parameter.to_owned(), block: body }
}

/// `handle expr { match_arms }`
pub fn handle(expr: Rc<Expression>, match_arms: Vec<HandleMatch>) -> (e: Rc<Expression>)
    ensures
        *e is Handle,
        *e->Handle_0 == (Handle { expr, match_arms }),
{
    Rc::new(Expression::Handle(Rc::new(Handle { expr, match_arms })))
}

/// `send symbol expr`
pub fn send(symbol: &str, expr: Option<Rc<Expression>>) -> (e: Rc<Expression>)
    ensures
        *e is Send,
        e->Send_0.symbol@ == symbol@,
        e->Send_0.expr == expr,
{
    Rc::new(Expression::Send(SendExpr { symbol: symbol.to_owned(), expr }))
}

/// `continue expr`
pub fn resume(expr: Option<Rc<Expression>>) -> (e: Rc<Expression>)
    ensures
        *e == Expression::Continue(Continue { expr }),
{
    Rc::new(Expression::Continue(Continue { expr }))
}

/// `break expr`
pub fn leave(expr: Option<Rc<Expression>>) -> (e: Rc<Expression>)
    ensures
        *e == Expression::Break(Break { expr }),
{
    Rc::new(Expression::Break(Break { expr }))
}

} // verus!
