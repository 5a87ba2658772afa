use kal::ast::{ComparisonOperator, Expression, NumericOperator, Statement};
use kal::builder::{
    arm, assignment, block, block_expression, call, comparison, elem, exactly, expression_statement,
    function, handle, ident, if_else, if_part, index, integer, leave, let_name, list, location,
    numeric, param, repeat, resume, send, spread_elem,
};
use kal::fatal::Fatal;
use kal::interpreter::Interpreter;
use kal::value::Value;
use std::rc::Rc;

fn program(statements: Vec<Rc<Statement>>, tail: Option<Rc<Expression>>) -> Rc<Expression> {
    block_expression(block(statements, tail))
}

fn eval(expression: Rc<Expression>) -> Result<Value, Fatal> {
    Interpreter::new().eval(expression)
}

fn symbol_call() -> Rc<Expression> {
    call(ident("symbol"), vec![])
}

// let x = 40 + 2; x
#[test]
fn let_then_name() {
    let p = program(
        vec![let_name("x", numeric(NumericOperator::Add, integer(40), integer(2)))],
        Some(ident("x")),
    );
    assert!(eval(p).unwrap() == Value::Int(42));
}

// let f = fn(a, b) { a * b }; f(3, 5)
#[test]
fn call_with_two_arguments() {
    let body = block(vec![], Some(numeric(NumericOperator::Multiply, ident("a"), ident("b"))));
    let f = function(exactly(vec![param("a"), param("b")]), body);
    let p = program(
        vec![let_name("f", f)],
        Some(call(ident("f"), vec![elem(integer(3)), elem(integer(5))])),
    );
    assert!(eval(p).unwrap() == Value::Int(15));
}

// let s = symbol(); s == s
#[test]
fn symbol_equals_itself() {
    let p = program(
        vec![let_name("s", symbol_call())],
        Some(comparison(ComparisonOperator::Equal, ident("s"), ident("s"))),
    );
    assert!(eval(p).unwrap() == Value::Bool(true));
}

// symbol() == symbol()
#[test]
fn two_symbols_differ() {
    let p = program(
        vec![],
        Some(comparison(ComparisonOperator::Equal, symbol_call(), symbol_call())),
    );
    assert!(eval(p).unwrap() == Value::Bool(false));
}

// let xs = [1, 2, 3, ...[4, 5]]; xs[-1]
#[test]
fn spread_and_negative_index() {
    let inner = list(vec![elem(integer(4)), elem(integer(5))]);
    let xs = list(vec![elem(integer(1)), elem(integer(2)), elem(integer(3)), spread_elem(inner)]);
    let p = program(vec![let_name("xs", xs)], Some(index(ident("xs"), integer(-1))));
    assert!(eval(p).unwrap() == Value::Int(5));
}

// let yield = symbol(); handle (send yield 10) { yield: v => continue v + 1 }
#[test]
fn handler_resumes_with_a_value() {
    let arm_body = block(
        vec![],
        Some(resume(Some(numeric(NumericOperator::Add, ident("v"), integer(1))))),
    );
    let p = program(
        vec![let_name("yield", symbol_call())],
        Some(handle(send("yield", Some(integer(10))), vec![arm("yield", "v", arm_body)])),
    );
    assert!(eval(p).unwrap() == Value::Int(11));
}

// let n = 0; let i = 0; loop { if i >= 5 { break n }; n = n + i; i = i + 1 }
#[test]
fn loop_sums_until_break() {
    let stop = if_else(
        vec![if_part(
            comparison(ComparisonOperator::GreaterEqual, ident("i"), integer(5)),
            block(vec![], Some(leave(Some(ident("n"))))),
        )],
        None,
    );
    let body = block(
        vec![
            expression_statement(stop),
            assignment(location("n", vec![]), numeric(NumericOperator::Add, ident("n"), ident("i"))),
            assignment(location("i", vec![]), numeric(NumericOperator::Add, ident("i"), integer(1))),
        ],
        None,
    );
    let p = program(
        vec![let_name("n", integer(0)), let_name("i", integer(0))],
        Some(repeat(body)),
    );
    assert!(eval(p).unwrap() == Value::Int(10));
}

// let x = 2; [x * 3 + 1, x * 3 + 1]
#[test]
fn a_pure_expression_has_the_same_value_each_time() {
    let e = || {
        numeric(
            NumericOperator::Add,
            numeric(NumericOperator::Multiply, ident("x"), integer(3)),
            integer(1),
        )
    };
    let p = program(vec![let_name("x", integer(2))], Some(list(vec![elem(e()), elem(e())])));
    match eval(p).unwrap() {
        Value::List(items) => {
            assert_eq!(items.len(), 2);
            assert!(items[0] == items[1]);
            assert!(items[0] == Value::Int(7));
        }
        _ => panic!("Expected a list."),
    }
}

// let xs = [1, 2]; [e, e] with e = if xs[0] == 1 { let y = xs[1]; [y, y] } else { 0 }
//
// A block with a binding of its own leaves the scope as it was, so the
// second evaluation sees what the first saw.
#[test]
fn a_branching_expression_has_the_same_value_each_time() {
    let e = || {
        let cond = comparison(ComparisonOperator::Equal, index(ident("xs"), integer(0)), integer(1));
        let body = block(
            vec![let_name("y", index(ident("xs"), integer(1)))],
            Some(list(vec![elem(ident("y")), elem(ident("y"))])),
        );
        if_else(vec![if_part(cond, body)], Some(block(vec![], Some(integer(0)))))
    };
    let p = program(
        vec![let_name("xs", list(vec![elem(integer(1)), elem(integer(2))]))],
        Some(list(vec![elem(e()), elem(e())])),
    );
    match eval(p).unwrap() {
        Value::List(items) => {
            assert_eq!(items.len(), 2);
            assert!(items[0] == items[1]);
            assert!(items[0] == Value::List(Rc::new(vec![Value::Int(2), Value::Int(2)])));
        }
        _ => panic!("Expected a list."),
    }
}
