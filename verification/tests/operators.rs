use kal::ast::{BooleanOperator, ComparisonOperator, Expression, NumericOperator};
use kal::builder::{
    block, block_expression, boolean, call, comparison, connective, elem, ident, integer, list,
    negative, not, null, numeric,
};
use kal::fatal::Fatal;
use kal::interpreter::Interpreter;
use kal::operators::{compare_values, compute, connect_values};
use kal::symbols::error_codes::{INT_MIN_NEGATION, TYPE_ERROR_INT};
use kal::symbols::ERROR;
use kal::value::{Table, Value};
use std::rc::Rc;

fn eval(expression: Rc<Expression>) -> Result<Value, Fatal> {
    Interpreter::new().eval(block_expression(block(vec![], Some(expression))))
}

fn error_payload(code: u64) -> Value {
    let mut table = Table::new();
    table.insert_name("code".to_string(), Value::Symbol(code));
    Value::Object(Rc::new(table))
}

#[test]
fn sums_differences_and_products() {
    assert_eq!(compute(NumericOperator::Add, 5, 3), Ok(8));
    assert_eq!(compute(NumericOperator::Subtract, 5, 7), Ok(-2));
    assert_eq!(compute(NumericOperator::Multiply, 3, 5), Ok(15));
    assert_eq!(compute(NumericOperator::Subtract, 7, -7), Ok(14));
}

#[test]
fn arithmetic_wraps_at_64_bits() {
    assert_eq!(compute(NumericOperator::Add, i64::MAX, 1), Ok(i64::MIN));
    assert_eq!(compute(NumericOperator::Subtract, i64::MIN, 1), Ok(i64::MAX));
    assert_eq!(compute(NumericOperator::Multiply, i64::MAX, 2), Ok(-2));
}

#[test]
fn quotients_round_toward_zero() {
    assert_eq!(compute(NumericOperator::Divide, 7, 2), Ok(3));
    assert_eq!(compute(NumericOperator::Divide, -7, 2), Ok(-3));
    assert_eq!(compute(NumericOperator::Divide, 7, -2), Ok(-3));
    assert_eq!(compute(NumericOperator::Divide, -7, -2), Ok(3));
    assert_eq!(compute(NumericOperator::Divide, 0, 5), Ok(0));
    assert_eq!(compute(NumericOperator::Divide, i64::MIN, 2), Ok(i64::MIN / 2));
    assert_eq!(compute(NumericOperator::Divide, i64::MIN, 1), Ok(i64::MIN));
}

#[test]
fn division_by_zero_is_fatal() {
    assert_eq!(compute(NumericOperator::Divide, 1, 0), Err(Fatal::DivisionByZero));
    assert_eq!(eval(numeric(NumericOperator::Divide, integer(1), integer(0))).err(), Some(Fatal::DivisionByZero));
}

#[test]
fn the_least_integer_by_minus_one_is_fatal() {
    assert_eq!(compute(NumericOperator::Divide, i64::MIN, -1), Err(Fatal::Overflow));
}

#[test]
fn ordering_is_for_integers_only() {
    let one = Value::Int(1);
    let two = Value::Int(2);
    assert_eq!(compare_values(ComparisonOperator::Less, &one, &two), Ok(true));
    assert_eq!(compare_values(ComparisonOperator::LessEqual, &two, &two), Ok(true));
    assert_eq!(compare_values(ComparisonOperator::Greater, &one, &two), Ok(false));
    assert_eq!(compare_values(ComparisonOperator::GreaterEqual, &one, &two), Ok(false));
    assert_eq!(
        compare_values(ComparisonOperator::Less, &Value::Bool(false), &Value::Bool(true)),
        Err(Fatal::Comparison)
    );
    assert_eq!(
        compare_values(ComparisonOperator::Greater, &one, &Value::Null),
        Err(Fatal::Comparison)
    );
    assert_eq!(
        compare_values(ComparisonOperator::LessEqual, &Value::Null, &Value::Null),
        Err(Fatal::Comparison)
    );
}

#[test]
fn equality_is_answered_for_every_two_values() {
    let one = Value::Int(1);
    assert_eq!(compare_values(ComparisonOperator::Equal, &one, &Value::Bool(true)), Ok(false));
    assert_eq!(compare_values(ComparisonOperator::NotEqual, &one, &Value::Bool(true)), Ok(true));
    assert_eq!(compare_values(ComparisonOperator::Equal, &Value::Null, &Value::Null), Ok(true));
    assert_eq!(compare_values(ComparisonOperator::NotEqual, &one, &one), Ok(false));
}

#[test]
fn boolean_operators() {
    assert!(!connect_values(BooleanOperator::And, true, false));
    assert!(connect_values(BooleanOperator::And, true, true));
    assert!(connect_values(BooleanOperator::Or, false, true));
    assert!(!connect_values(BooleanOperator::Or, false, false));
    assert!(connect_values(BooleanOperator::Xor, true, false));
    assert!(!connect_values(BooleanOperator::Xor, true, true));
}

#[test]
fn operands_are_taken_in_source_order() {
    assert!(eval(numeric(NumericOperator::Subtract, integer(5), integer(7))).unwrap() == Value::Int(-2));
    assert!(eval(numeric(NumericOperator::Divide, integer(9), integer(4))).unwrap() == Value::Int(2));
    assert!(
        eval(comparison(ComparisonOperator::Less, integer(1), integer(2))).unwrap()
            == Value::Bool(true)
    );
    // The left operand is evaluated first: it gets the first symbol.
    let p = list(vec![
        elem(call(ident("symbol"), vec![])),
        elem(call(ident("symbol"), vec![])),
    ]);
    assert!(
        eval(p).unwrap() == Value::List(Rc::new(vec![Value::Symbol(0), Value::Symbol(1)]))
    );
}

#[test]
fn not_and_the_connectives_need_booleans() {
    assert!(eval(not(boolean(true))).unwrap() == Value::Bool(false));
    assert_eq!(eval(not(integer(1))).err(), Some(Fatal::NotBool));
    assert_eq!(
        eval(connective(BooleanOperator::And, boolean(true), null())).err(),
        Some(Fatal::NotBool)
    );
    assert!(
        eval(connective(BooleanOperator::Xor, boolean(true), boolean(false))).unwrap()
            == Value::Bool(true)
    );
}

#[test]
fn comparing_lists_in_a_program() {
    let a = list(vec![elem(integer(1)), elem(integer(2))]);
    let b = list(vec![elem(integer(1)), elem(integer(2))]);
    assert!(eval(comparison(ComparisonOperator::Equal, a, b)).unwrap() == Value::Bool(true));
    assert_eq!(
        eval(comparison(ComparisonOperator::Less, boolean(true), boolean(false))).err(),
        Some(Fatal::Comparison)
    );
}

#[test]
fn negation() {
    assert!(eval(negative(integer(5))).unwrap() == Value::Int(-5));
    assert!(eval(negative(negative(integer(5)))).unwrap() == Value::Int(5));
    assert!(eval(negative(integer(i64::MAX))).unwrap() == Value::Int(i64::MIN + 1));
}

// Negating the least integer raises an error effect. Nothing handles it
// here, so it is what the program yields.
#[test]
fn negating_the_least_integer_raises_an_error() {
    match eval(negative(integer(i64::MIN))).unwrap() {
        Value::Effect(effect) => {
            assert_eq!(effect.symbol, ERROR);
            assert!(effect.value == error_payload(INT_MIN_NEGATION));
        }
        _ => panic!("Expected an effect value, got something else."),
    }
}

#[test]
fn arithmetic_on_a_boolean_raises_an_error() {
    match eval(numeric(NumericOperator::Add, integer(1), boolean(true))).unwrap() {
        Value::Effect(effect) => {
            assert_eq!(effect.symbol, ERROR);
            assert!(effect.value == error_payload(TYPE_ERROR_INT));
        }
        _ => panic!("Expected an effect value, got something else."),
    }
}
