use kal::ast::{ComparisonOperator, Expression, NumericOperator, Statement};
use kal::builder::{
    assignment, block, block_expression, boolean, call, comparison, elem, exactly,
    expression_statement, function, ident, if_else, if_part, integer, leave, let_name, list,
    location, null, numeric, object, param, repeat, resume, spread_elem,
};
use kal::fatal::Fatal;
use kal::interpreter::Interpreter;
use kal::value::{Table, Value};
use std::rc::Rc;

fn eval(statements: Vec<Rc<Statement>>, tail: Option<Rc<Expression>>) -> Result<Value, Fatal> {
    Interpreter::new().eval(block_expression(block(statements, tail)))
}

fn just(e: Rc<Expression>) -> Rc<kal::ast::Block> {
    block(vec![], Some(e))
}

fn set(name: &str, e: Rc<Expression>) -> Rc<Statement> {
    assignment(location(name, vec![]), e)
}

fn plus(l: Rc<Expression>, r: Rc<Expression>) -> Rc<Expression> {
    numeric(NumericOperator::Add, l, r)
}

#[test]
fn an_empty_program_yields_null() {
    assert!(eval(vec![], None).unwrap() == Value::Null);
}

#[test]
fn if_takes_the_first_branch_that_holds() {
    let e = if_else(
        vec![
            if_part(boolean(false), just(integer(1))),
            if_part(boolean(true), just(integer(2))),
            if_part(boolean(true), just(integer(3))),
        ],
        Some(just(integer(4))),
    );
    assert!(eval(vec![], Some(e)).unwrap() == Value::Int(2));
}

#[test]
fn if_falls_through_to_else() {
    let e = if_else(
        vec![if_part(boolean(false), just(integer(1))), if_part(boolean(false), just(integer(2)))],
        Some(just(integer(72))),
    );
    assert!(eval(vec![], Some(e)).unwrap() == Value::Int(72));
}

// if false { 1 }
#[test]
fn if_without_else_yields_null() {
    let e = if_else(vec![if_part(boolean(false), just(integer(1)))], None);
    assert!(eval(vec![], Some(e)).unwrap() == Value::Null);
}

#[test]
fn if_needs_a_boolean() {
    let e = if_else(vec![if_part(integer(1), just(integer(1)))], None);
    assert_eq!(eval(vec![], Some(e)).err(), Some(Fatal::NotBool));
}

#[test]
fn if_needs_a_condition() {
    assert_eq!(eval(vec![], Some(if_else(vec![], None))).err(), Some(Fatal::Malformed));
}

// []
#[test]
fn the_empty_list_literal() {
    let r = eval(vec![], Some(list(vec![]))).unwrap();
    assert!(r == Value::List(Rc::new(Vec::new())));
    match r {
        Value::List(items) => assert_eq!(items.len(), 0),
        _ => panic!("Expected a list."),
    }
}

// {}
#[test]
fn the_empty_object_literal() {
    let r = eval(vec![], Some(object(vec![]))).unwrap();
    assert!(r == Value::Object(Rc::new(Table::new())));
    match r {
        Value::Object(table) => assert_eq!(table.len(), 0),
        _ => panic!("Expected an object."),
    }
}

// let n = 0; loop { n = n + 1; if n >= 3 { break n }; continue 99 }
#[test]
fn continue_in_a_loop_drops_its_value() {
    let stop = if_else(
        vec![if_part(
            comparison(ComparisonOperator::GreaterEqual, ident("n"), integer(3)),
            just(leave(Some(ident("n")))),
        )],
        None,
    );
    let body = block(
        vec![
            set("n", plus(ident("n"), integer(1))),
            expression_statement(stop),
            expression_statement(resume(Some(integer(99)))),
            set("n", integer(1000)),
        ],
        None,
    );
    let r = eval(vec![let_name("n", integer(0))], Some(repeat(body)));
    assert!(r.unwrap() == Value::Int(3));
}

// loop { break }
#[test]
fn break_without_a_value_yields_null() {
    let r = eval(vec![], Some(repeat(just(leave(None)))));
    assert!(r.unwrap() == Value::Null);
}

// let x = 1; loop { let x = 2; break x }; x
#[test]
fn break_closes_the_scopes_of_the_loop() {
    let body = block(vec![let_name("x", integer(2))], Some(leave(Some(ident("x")))));
    let r = eval(
        vec![let_name("x", integer(1)), expression_statement(repeat(body))],
        Some(ident("x")),
    );
    assert!(r.unwrap() == Value::Int(1));
}

#[test]
fn jumps_need_a_loop_or_a_handler() {
    assert_eq!(eval(vec![], Some(leave(Some(integer(1))))).err(), Some(Fatal::BadJump));
    assert_eq!(eval(vec![], Some(resume(None))).err(), Some(Fatal::BadJump));
}

// { let x = 1; }; x
#[test]
fn a_block_closes_its_scope() {
    let inner = block_expression(block(vec![let_name("x", integer(1))], None));
    assert_eq!(
        eval(vec![expression_statement(inner)], Some(ident("x"))).err(),
        Some(Fatal::Unresolved)
    );
}

// let x = 1; { let x = 2; x } + x
#[test]
fn an_inner_binding_shadows_an_outer_one() {
    let inner = block_expression(block(vec![let_name("x", integer(2))], Some(ident("x"))));
    let r = eval(vec![let_name("x", integer(1))], Some(plus(inner, ident("x"))));
    assert!(r.unwrap() == Value::Int(3));
}

// let x = 1; let x = x + 1; x
#[test]
fn let_rebinds_in_the_same_scope() {
    let r = eval(
        vec![let_name("x", integer(1)), let_name("x", plus(ident("x"), integer(1)))],
        Some(ident("x")),
    );
    assert!(r.unwrap() == Value::Int(2));
}

// let x = 1; let f = fn() { x }; f()
#[test]
fn a_closure_sees_the_scope_it_was_written_in() {
    let f = function(exactly(vec![]), just(ident("x")));
    let r = eval(vec![let_name("x", integer(1)), let_name("f", f)], Some(call(ident("f"), vec![])));
    assert!(r.unwrap() == Value::Int(1));
}

// let f = fn() { 1 }; let y = 2; f() + y
#[test]
fn bindings_after_a_closure_go_to_a_fresh_frame() {
    let f = function(exactly(vec![]), just(integer(1)));
    let r = eval(
        vec![let_name("f", f), let_name("y", integer(2))],
        Some(plus(call(ident("f"), vec![]), ident("y"))),
    );
    assert!(r.unwrap() == Value::Int(3));
}

// let fact = fn(self, n) { if n <= 1 { 1 } else { n * self(self, n - 1) } }; fact(fact, 5)
#[test]
fn recursion_by_passing_the_function() {
    let again = call(
        ident("self"),
        vec![elem(ident("self")), elem(numeric(NumericOperator::Subtract, ident("n"), integer(1)))],
    );
    let body = if_else(
        vec![if_part(
            comparison(ComparisonOperator::LessEqual, ident("n"), integer(1)),
            just(integer(1)),
        )],
        Some(just(numeric(NumericOperator::Multiply, ident("n"), again))),
    );
    let fact = function(exactly(vec![param("self"), param("n")]), just(body));
    let r = eval(
        vec![let_name("fact", fact)],
        Some(call(ident("fact"), vec![elem(ident("fact")), elem(integer(5))])),
    );
    assert!(r.unwrap() == Value::Int(120));
}

#[test]
fn closures_are_equal_to_nothing() {
    let f = function(exactly(vec![]), just(null()));
    let r = eval(
        vec![let_name("f", f)],
        Some(comparison(ComparisonOperator::Equal, ident("f"), ident("f"))),
    );
    assert!(r.unwrap() == Value::Bool(false));
}

#[test]
fn only_closures_and_intrinsics_can_be_called() {
    assert_eq!(eval(vec![], Some(call(integer(1), vec![]))).err(), Some(Fatal::NotCallable));
}

#[test]
fn names_must_be_bound() {
    assert_eq!(eval(vec![], Some(ident("nobody"))).err(), Some(Fatal::Unresolved));
}

#[test]
fn spread_needs_a_list() {
    assert_eq!(
        eval(vec![], Some(list(vec![spread_elem(integer(1))]))).err(),
        Some(Fatal::NotList)
    );
}

// The first symbol is always 0.
#[test]
fn the_symbol_intrinsic_counts_from_zero() {
    assert!(eval(vec![], Some(call(ident("symbol"), vec![]))).unwrap() == Value::Symbol(0));
    let r = eval(
        vec![expression_statement(call(ident("symbol"), vec![]))],
        Some(call(ident("symbol"), vec![])),
    );
    assert!(r.unwrap() == Value::Symbol(1));
}

#[test]
fn the_symbol_literal_mints_symbols_too() {
    let r = eval(
        vec![expression_statement(kal::builder::fresh_symbol())],
        Some(kal::builder::fresh_symbol()),
    );
    assert!(r.unwrap() == Value::Symbol(1));
}

// let xs = []; let i = 0;
// loop { if i >= 5 { break xs }; xs = [...xs, i]; i = i + 1 }
#[test]
fn a_loop_collects_into_a_list() {
    let stop = if_else(
        vec![if_part(
            comparison(ComparisonOperator::GreaterEqual, ident("i"), integer(5)),
            just(leave(Some(ident("xs")))),
        )],
        None,
    );
    let body = block(
        vec![
            expression_statement(stop),
            set("xs", list(vec![spread_elem(ident("xs")), elem(ident("i"))])),
            set("i", plus(ident("i"), integer(1))),
        ],
        None,
    );
    let r = eval(
        vec![let_name("xs", list(vec![])), let_name("i", integer(0))],
        Some(repeat(body)),
    );
    let expected: Vec<Value> = (0..5).map(Value::Int).collect();
    assert!(r.unwrap() == Value::List(Rc::new(expected)));
}

// let double = fn(n) { n + n }; let total = 0; let i = 0;
// loop { if i >= 4 { break total }; total = total + double(i); i = i + 1 }
#[test]
fn names_bound_after_a_closure_can_be_assigned() {
    let double = function(exactly(vec![param("n")]), just(plus(ident("n"), ident("n"))));
    let stop = if_else(
        vec![if_part(
            comparison(ComparisonOperator::GreaterEqual, ident("i"), integer(4)),
            just(leave(Some(ident("total")))),
        )],
        None,
    );
    let body = block(
        vec![
            expression_statement(stop),
            set("total", plus(ident("total"), call(ident("double"), vec![elem(ident("i"))]))),
            set("i", plus(ident("i"), integer(1))),
        ],
        None,
    );
    let r = eval(
        vec![let_name("double", double), let_name("total", integer(0)), let_name("i", integer(0))],
        Some(repeat(body)),
    );
    assert!(r.unwrap() == Value::Int(12));
}

// let count = fn(self, n) { if n <= 0 { 0 } else { 1 + self(self, n - 1) } };
// count(count, 100000)
//
// Calls nest in the machine's own stack of function contexts.
#[test]
fn deep_recursion_needs_no_native_stack() {
    let again = call(
        ident("self"),
        vec![elem(ident("self")), elem(numeric(NumericOperator::Subtract, ident("n"), integer(1)))],
    );
    let body = if_else(
        vec![if_part(
            comparison(ComparisonOperator::LessEqual, ident("n"), integer(0)),
            just(integer(0)),
        )],
        Some(just(plus(integer(1), again))),
    );
    let count = function(exactly(vec![param("self"), param("n")]), just(body));
    let r = eval(
        vec![let_name("count", count)],
        Some(call(ident("count"), vec![elem(ident("count")), elem(integer(100_000))])),
    );
    assert!(r.unwrap() == Value::Int(100_000));
}

// let f = fn() { null }; [f] == [f]
#[test]
fn a_list_that_holds_a_closure_is_equal_to_nothing() {
    let f = function(exactly(vec![]), just(null()));
    let r = eval(
        vec![let_name("f", f)],
        Some(comparison(
            ComparisonOperator::Equal,
            list(vec![elem(ident("f"))]),
            list(vec![elem(ident("f"))]),
        )),
    );
    assert!(r.unwrap() == Value::Bool(false));
}
