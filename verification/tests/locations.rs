use kal::ast::{Expression, NumericOperator, Statement};
use kal::builder::{
    assignment, block, block_expression, dot, dot_part, elem, exactly, function, ident, index,
    index_part, integer, kv, let_name, list, location, location_expression, numeric, object,
};
use kal::fatal::Fatal;
use kal::interpreter::Interpreter;
use kal::value::{Scope, Table, Value};
use std::rc::Rc;

fn eval(statements: Vec<Rc<Statement>>, tail: Rc<Expression>) -> Result<Value, Fatal> {
    Interpreter::new().eval(block_expression(block(statements, Some(tail))))
}

fn ints(items: Vec<i64>) -> Rc<Expression> {
    list(items.into_iter().map(|i| elem(integer(i))).collect())
}

// let o = {a: 1, b: 2}; o.b
#[test]
fn reading_a_field() {
    let o = object(vec![kv("a", integer(1)), kv("b", integer(2))]);
    assert!(eval(vec![let_name("o", o)], dot(ident("o"), "b")).unwrap() == Value::Int(2));
}

#[test]
fn reading_a_field_that_is_not_there() {
    let o = object(vec![kv("a", integer(1))]);
    assert_eq!(eval(vec![let_name("o", o)], dot(ident("o"), "b")).err(), Some(Fatal::MissingKey));
}

#[test]
fn reading_a_field_of_a_list() {
    assert_eq!(eval(vec![], dot(ints(vec![1]), "a")).err(), Some(Fatal::NotObject));
}

// let xs = [10, 20, 30]; xs[1]
#[test]
fn reading_an_item() {
    let r = eval(vec![let_name("xs", ints(vec![10, 20, 30]))], index(ident("xs"), integer(1)));
    assert!(r.unwrap() == Value::Int(20));
}

#[test]
fn reading_past_the_end() {
    let xs = || let_name("xs", ints(vec![10, 20, 30]));
    assert_eq!(eval(vec![xs()], index(ident("xs"), integer(3))).err(), Some(Fatal::OutOfRange));
    assert_eq!(eval(vec![xs()], index(ident("xs"), integer(-4))).err(), Some(Fatal::OutOfRange));
    assert!(eval(vec![xs()], index(ident("xs"), integer(-3))).unwrap() == Value::Int(10));
}

#[test]
fn an_index_must_be_an_integer_and_the_base_a_list() {
    let xs = || let_name("xs", ints(vec![10]));
    assert_eq!(
        eval(vec![xs()], index(ident("xs"), kal::builder::boolean(true))).err(),
        Some(Fatal::NotInt)
    );
    assert_eq!(eval(vec![], index(integer(1), integer(0))).err(), Some(Fatal::NotList));
}

// let o = {a: [1, 2]}; o.a[1]
#[test]
fn a_chain_from_a_name() {
    let o = object(vec![kv("a", ints(vec![1, 2]))]);
    let chain = Rc::new(Expression::Location(Rc::new(location(
        "o",
        vec![dot_part("a"), index_part(integer(1))],
    ))));
    assert!(eval(vec![let_name("o", o)], chain).unwrap() == Value::Int(2));
}

// [[1, 2], [3, 4]][1][0]
#[test]
fn a_chain_from_an_expression() {
    let base = list(vec![elem(ints(vec![1, 2])), elem(ints(vec![3, 4]))]);
    let chain = location_expression(base, vec![index_part(integer(1)), index_part(integer(0))]);
    assert!(eval(vec![], chain).unwrap() == Value::Int(3));
}

// let x = 1; x = x + 1; x
#[test]
fn assigning_to_a_name() {
    let r = eval(
        vec![
            let_name("x", integer(1)),
            assignment(location("x", vec![]), numeric(NumericOperator::Add, ident("x"), integer(1))),
        ],
        ident("x"),
    );
    assert!(r.unwrap() == Value::Int(2));
}

// let xs = [1, 2, 3]; xs[-1] = 99; xs[2]
#[test]
fn assigning_to_an_item() {
    let r = eval(
        vec![
            let_name("xs", ints(vec![1, 2, 3])),
            assignment(location("xs", vec![index_part(integer(-1))]), integer(99)),
        ],
        index(ident("xs"), integer(2)),
    );
    assert!(r.unwrap() == Value::Int(99));
}

// let o = {a: {b: [1, 2]}}; o.a.b[0] = 3; o.a.b[0] + o.a.b[1]
#[test]
fn assigning_deep_inside() {
    let o = object(vec![kv("a", object(vec![kv("b", ints(vec![1, 2]))]))]);
    let read = |i: i64| {
        Rc::new(Expression::Location(Rc::new(location(
            "o",
            vec![dot_part("a"), dot_part("b"), index_part(integer(i))],
        ))))
    };
    let r = eval(
        vec![
            let_name("o", o),
            assignment(
                location("o", vec![dot_part("a"), dot_part("b"), index_part(integer(0))]),
                integer(3),
            ),
        ],
        numeric(NumericOperator::Add, read(0), read(1)),
    );
    assert!(r.unwrap() == Value::Int(5));
}

// let xs = [1]; let ys = xs; xs[0] = 2
//
// The list has two holders, so it cannot be changed in place.
#[test]
fn assigning_into_a_shared_list_is_fatal() {
    let r = eval(
        vec![
            let_name("xs", ints(vec![1])),
            let_name("ys", ident("xs")),
            assignment(location("xs", vec![index_part(integer(0))]), integer(2)),
        ],
        ident("xs"),
    );
    assert_eq!(r.err(), Some(Fatal::Aliased));
}

// let x = 1; let f = fn() { x }; x = 2
//
// The frame that binds `x` is shared with the closure.
#[test]
fn assigning_to_a_captured_name_is_fatal() {
    let f = function(exactly(vec![]), block(vec![], Some(ident("x"))));
    let r = eval(
        vec![
            let_name("x", integer(1)),
            let_name("f", f),
            assignment(location("x", vec![]), integer(2)),
        ],
        ident("x"),
    );
    assert_eq!(r.err(), Some(Fatal::Aliased));
}

// The search for the binding goes up to the frames that every function
// context shares, and stops there.
#[test]
fn assigning_to_an_unknown_name_is_fatal() {
    let r = eval(vec![assignment(location("nobody", vec![]), integer(2))], integer(0));
    assert_eq!(r.err(), Some(Fatal::Aliased));
}

#[test]
fn assigning_past_the_end_is_fatal() {
    let r = eval(
        vec![
            let_name("xs", ints(vec![1])),
            assignment(location("xs", vec![index_part(integer(1))]), integer(2)),
        ],
        integer(0),
    );
    assert_eq!(r.err(), Some(Fatal::OutOfRange));
}

#[test]
fn rebinding_along_a_chain_of_scopes() {
    let mut outer = Table::new();
    outer.insert_name("x".to_string(), Value::Int(1));
    let outer = Rc::new(Scope::with_bindings(None, outer));
    let inner = Scope::extend(outer);
    assert!(Scope::resolve_binding(&inner, &"x".to_string()) == Some(&Value::Int(1)));
    let inner = Scope::resolve_binding_mut(inner, &"x".to_string(), Value::Int(2)).unwrap();
    assert!(Scope::resolve_binding(&inner, &"x".to_string()) == Some(&Value::Int(2)));
    assert!(Scope::resolve_binding(&inner, &"y".to_string()).is_none());
    assert_eq!(
        Scope::resolve_binding_mut(inner, &"y".to_string(), Value::Int(2)).err(),
        Some(Fatal::Unresolved)
    );
}

#[test]
fn rebinding_through_a_shared_frame_is_fatal() {
    let mut outer = Table::new();
    outer.insert_name("x".to_string(), Value::Int(1));
    let outer = Rc::new(Scope::with_bindings(None, outer));
    let inner = Scope::extend(outer.clone());
    assert_eq!(
        Scope::resolve_binding_mut(inner, &"x".to_string(), Value::Int(2)).err(),
        Some(Fatal::Aliased)
    );
    assert!(Scope::resolve_binding(&outer, &"x".to_string()) == Some(&Value::Int(1)));
}

// [1][0] = 2
#[test]
fn an_assignment_must_start_from_a_name() {
    let target = kal::ast::LocationChain {
        base: kal::ast::LocationChainBase::Expression(ints(vec![1])),
        parts: vec![index_part(integer(0))],
    };
    let r = eval(vec![assignment(target, integer(2))], integer(0));
    assert_eq!(r.err(), Some(Fatal::NotAssignable));
}

#[test]
fn rebinding_in_a_frame() {
    let mut bindings = Table::new();
    bindings.insert_name("x".to_string(), Value::Int(1));
    let frame = Scope::with_bindings(None, bindings);
    let frame = match Scope::rebind(frame, &"x".to_string(), Value::Int(2)) {
        Ok(frame) => frame,
        Err(_) => panic!("Expected the frame to bind x."),
    };
    assert!(frame.bindings.get_name(&"x".to_string()) == Some(&Value::Int(2)));
    match Scope::rebind(frame, &"y".to_string(), Value::Int(3)) {
        Ok(_) => panic!("Expected the frame not to bind y."),
        Err((frame, value)) => {
            assert!(value == Value::Int(3));
            assert_eq!(frame.bindings.len(), 1);
            assert!(frame.bindings.get_name(&"x".to_string()) == Some(&Value::Int(2)));
        }
    }
}

#[test]
fn assigning_in_a_frame_that_is_held_alone() {
    let mut bindings = Table::new();
    bindings.insert_name("xs".to_string(), Value::List(Rc::new(vec![Value::Int(1), Value::Int(2)])));
    let frame = Scope::with_bindings(None, bindings);
    let parts = vec![index_part(integer(1))];
    let idxs = vec![Value::Int(1)];
    let frame =
        kal::location::assign_in_frame(frame, &"xs".to_string(), &parts, &idxs, Value::Int(9))
            .unwrap();
    assert!(
        frame.bindings.get_name(&"xs".to_string())
            == Some(&Value::List(Rc::new(vec![Value::Int(1), Value::Int(9)])))
    );
    let missing =
        kal::location::assign_in_frame(frame, &"ys".to_string(), &parts, &idxs, Value::Int(9));
    assert_eq!(missing.err(), Some(Fatal::Unresolved));
}

#[test]
fn locating_a_slot_in_what_is_held_alone() {
    let field = kal::ast::DotLocation { prop: "b".to_string() };
    let mut table = Table::new();
    table.insert_name("a".to_string(), Value::Int(1));
    table.insert_name("b".to_string(), Value::Int(2));
    let (table, at) = field.locate(table).unwrap();
    assert_eq!(at, 1);
    assert_eq!(table.len(), 2);
    let other = kal::ast::DotLocation { prop: "c".to_string() };
    assert_eq!(other.locate(table).err(), Some(Fatal::MissingKey));

    let item = kal::ast::IndexLocation { index: integer(0) };
    let (items, at) = item.locate(-1, vec![Value::Int(1), Value::Int(2)]).unwrap();
    assert_eq!(at, 1);
    assert_eq!(items.len(), 2);
    assert_eq!(item.locate(2, items).err(), Some(Fatal::OutOfRange));
}

#[test]
fn opening_for_writing_refuses_the_wrong_kind_first() {
    let field = kal::ast::DotLocation { prop: "a".to_string() };
    assert_eq!(field.resolve_mut(Value::Int(1)).err(), Some(Fatal::NotObject));
    let item = kal::ast::IndexLocation { index: integer(0) };
    assert_eq!(item.resolve_mut(&Value::Int(0), Value::Null).err(), Some(Fatal::NotList));
    let xs = Value::List(Rc::new(vec![Value::Int(1)]));
    assert_eq!(item.resolve_mut(&Value::Null, xs).err(), Some(Fatal::NotInt));
    let ys = Value::List(Rc::new(vec![Value::Int(1)]));
    let held = ys.try_clone().unwrap();
    assert_eq!(item.resolve_mut(&Value::Int(0), ys).err(), Some(Fatal::Aliased));
    assert!(held == Value::List(Rc::new(vec![Value::Int(1)])));
}
