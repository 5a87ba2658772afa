use kal::ast::{ComparisonOperator, Expression, NumericOperator, Statement};
use kal::builder::{
    arm, block, block_expression, boolean, call, comparison, dot, elem, exactly, function, handle,
    ident, if_else, if_part, integer, kv, leave, let_name, numeric, object, resume, send,
    spread_object,
};
use kal::symbols::error_codes::{ERROR_LOOP, TYPE_ERROR_OBJECT};
use kal::symbols::ERROR;
use kal::interpreter::Interpreter;
use kal::value::Value;
use std::rc::Rc;

fn program(statements: Vec<Rc<Statement>>, tail: Option<Rc<Expression>>) -> Rc<Expression> {
    block_expression(block(statements, tail))
}

fn eval_program(expression: Rc<Expression>) -> Value {
    Interpreter::new().eval(expression).unwrap()
}

fn symbol_call() -> Rc<Expression> {
    call(ident("symbol"), vec![])
}

// let e = symbol(); let f = fn() { send e 4 }; f()
//
// Nothing handles the effect that `f` sends, so it is what the program
// yields.
#[test]
fn handle_implicit() {
    let f = function(exactly(vec![]), block(vec![], Some(send("e", Some(integer(4))))));
    let p = program(
        vec![let_name("e", symbol_call()), let_name("f", f)],
        Some(call(ident("f"), vec![])),
    );
    let val = eval_program(p);
    match val {
        Value::Effect(effect) => assert!(effect.value == Value::Int(4)),
        _ => panic!("Expected an effect value, got something else."),
    }
}

// let e = symbol(); handle (send e true) {}
//
// A handler without arms passes every effect on.
#[test]
fn handle_empty() {
    let p = program(
        vec![let_name("e", symbol_call())],
        Some(handle(send("e", Some(boolean(true))), vec![])),
    );
    let val = eval_program(p);
    match val {
        Value::Effect(effect) => assert!(effect.value == Value::Bool(true)),
        _ => panic!("Expected an effect value, got something else."),
    }
}

// let a = symbol(); let b = symbol();
// handle (handle (send a (send b 7)) { b: v => continue v + 1 }) { a: v => continue v }
#[test]
fn effect_passes_through_inner_handler() {
    let inner_arm = block(
        vec![],
        Some(resume(Some(numeric(NumericOperator::Add, ident("v"), integer(1))))),
    );
    let outer_arm = block(vec![], Some(resume(Some(ident("v")))));
    let operand = send("a", Some(send("b", Some(integer(7)))));
    let inner = handle(operand, vec![arm("b", "v", inner_arm)]);
    let outer = handle(inner, vec![arm("a", "v", outer_arm)]);
    let p = program(
        vec![let_name("a", symbol_call()), let_name("b", symbol_call())],
        Some(outer),
    );
    assert!(eval_program(p) == Value::Int(8));
}

// A call with an argument too many for the intrinsic is fatal.
#[test]
fn intrinsic_checks_its_arity() {
    let p = program(vec![], Some(call(ident("symbol"), vec![elem(integer(1))])));
    assert_eq!(Interpreter::new().eval(p).err(), Some(kal::fatal::Fatal::Arity));
}

fn plus(l: Rc<Expression>, r: Rc<Expression>) -> Rc<Expression> {
    numeric(NumericOperator::Add, l, r)
}

// let e = symbol(); handle 5 { e: v => 0 }
#[test]
fn a_handler_yields_the_value_of_its_operand() {
    let p = program(
        vec![let_name("e", symbol_call())],
        Some(handle(integer(5), vec![arm("e", "v", block(vec![], Some(integer(0))))])),
    );
    assert!(eval_program(p) == Value::Int(5));
}

// let e = symbol(); handle (send e 1) + 100 { e: v => v + 2 }
//
// The arm ends without `continue`, so what interrupted is given up.
#[test]
fn an_arm_that_ends_yields_its_value() {
    let arm_body = block(vec![], Some(plus(ident("v"), integer(2))));
    let p = program(
        vec![let_name("e", symbol_call())],
        Some(handle(plus(send("e", Some(integer(1))), integer(100)), vec![arm("e", "v", arm_body)])),
    );
    assert!(eval_program(p) == Value::Int(3));
}

// let e = symbol(); handle (send e 1) + 100 { e: v => break 7 }
#[test]
fn break_in_an_arm_yields_its_value() {
    let arm_body = block(vec![], Some(leave(Some(integer(7)))));
    let p = program(
        vec![let_name("e", symbol_call())],
        Some(handle(plus(send("e", Some(integer(1))), integer(100)), vec![arm("e", "v", arm_body)])),
    );
    assert!(eval_program(p) == Value::Int(7));
}

// let e = symbol(); handle (send e 1) + (send e 10) { e: v => continue v * 3 }
#[test]
fn a_handler_takes_every_effect_of_its_operand() {
    let arm_body = block(
        vec![],
        Some(resume(Some(numeric(NumericOperator::Multiply, ident("v"), integer(3))))),
    );
    let operand = plus(send("e", Some(integer(1))), send("e", Some(integer(10))));
    let p = program(
        vec![let_name("e", symbol_call())],
        Some(handle(operand, vec![arm("e", "v", arm_body)])),
    );
    assert!(eval_program(p) == Value::Int(33));
}

// let a = symbol(); let b = symbol();
// handle (send a 1) + (send b 2) { a: v => continue v + 10, b: v => continue v + 20 }
#[test]
fn arms_are_chosen_by_symbol() {
    let arm_a = block(vec![], Some(resume(Some(plus(ident("v"), integer(10))))));
    let arm_b = block(vec![], Some(resume(Some(plus(ident("v"), integer(20))))));
    let operand = plus(send("a", Some(integer(1))), send("b", Some(integer(2))));
    let p = program(
        vec![let_name("a", symbol_call()), let_name("b", symbol_call())],
        Some(handle(operand, vec![arm("a", "v", arm_a), arm("b", "v", arm_b)])),
    );
    assert!(eval_program(p) == Value::Int(33));
}

// let e = symbol(); let f = fn(x) { (send e x) + 1 };
// handle f(1) + f(2) { e: v => continue v * 2 }
#[test]
fn effects_cross_function_calls() {
    let f = function(
        kal::builder::exactly(vec![kal::builder::param("x")]),
        block(vec![], Some(plus(send("e", Some(ident("x"))), integer(1)))),
    );
    let arm_body = block(
        vec![],
        Some(resume(Some(numeric(NumericOperator::Multiply, ident("v"), integer(2))))),
    );
    let operand = plus(
        call(ident("f"), vec![elem(integer(1))]),
        call(ident("f"), vec![elem(integer(2))]),
    );
    let p = program(
        vec![let_name("e", symbol_call()), let_name("f", f)],
        Some(handle(operand, vec![arm("e", "v", arm_body)])),
    );
    // The call of `f` runs in a context of its own, so its `send` yields to
    // the operand, not to the handler: the sum meets an effect.
    match Interpreter::new().eval(p) {
        Ok(Value::Effect(effect)) => assert_eq!(effect.symbol, ERROR),
        other => panic!("Expected an error effect, got {:?}.", other),
    }
}

// let e = symbol(); send e
#[test]
fn send_without_a_payload_sends_null() {
    let p = program(vec![let_name("e", symbol_call())], Some(send("e", None)));
    match eval_program(p) {
        Value::Effect(effect) => {
            assert_eq!(effect.symbol, 0);
            assert!(effect.value == Value::Null);
        }
        _ => panic!("Expected an effect value, got something else."),
    }
}

#[test]
fn effects_are_equal_to_nothing() {
    let capture = |payload: i64| {
        let p = program(vec![let_name("e", symbol_call())], Some(send("e", Some(integer(payload)))));
        eval_program(p)
    };
    let a = capture(1);
    assert!(a != capture(1));
    assert!(!(a == a));
    assert!(a.try_clone().is_none());
}

// let x = 1; send x 2
#[test]
fn the_type_of_an_effect_must_be_a_symbol() {
    let p = program(vec![let_name("x", integer(1))], Some(send("x", Some(integer(2)))));
    assert_eq!(Interpreter::new().eval(p).err(), Some(kal::fatal::Fatal::NotSymbol));
    let h = program(
        vec![let_name("x", integer(1))],
        Some(handle(integer(0), vec![arm("x", "v", block(vec![], None))])),
    );
    assert_eq!(Interpreter::new().eval(h).err(), Some(kal::fatal::Fatal::NotSymbol));
}

// handle 1 + true { error: e => continue 5 }
#[test]
fn a_type_error_can_be_answered_with_a_value() {
    let arm_body = block(vec![], Some(resume(Some(integer(5)))));
    let p = program(
        vec![],
        Some(handle(plus(integer(1), boolean(true)), vec![arm("error", "e", arm_body)])),
    );
    assert!(eval_program(p) == Value::Int(6));
}

// handle 1 + true {
//     error: e => if e.code == errors.type_error_int { continue false } else { break e.code }
// }
//
// The answer fails the check again, which raises the error for that.
#[test]
fn a_wrong_answer_to_an_error_raises_error_loop() {
    let first = comparison(
        ComparisonOperator::Equal,
        dot(ident("e"), "code"),
        dot(ident("errors"), "type_error_int"),
    );
    let decide = if_else(
        vec![if_part(first, block(vec![], Some(resume(Some(boolean(false))))))],
        Some(block(vec![], Some(leave(Some(dot(ident("e"), "code")))))),
    );
    let p = program(
        vec![],
        Some(handle(
            plus(integer(1), boolean(true)),
            vec![arm("error", "e", block(vec![], Some(decide)))],
        )),
    );
    assert!(eval_program(p) == Value::Symbol(ERROR_LOOP));
}

// {...1}
#[test]
fn spreading_what_is_no_object_raises_an_error() {
    let p = program(vec![], Some(object(vec![spread_object(integer(1))])));
    match eval_program(p) {
        Value::Effect(effect) => {
            assert_eq!(effect.symbol, ERROR);
            match &effect.value {
                Value::Object(table) => {
                    assert!(
                        table.get_name(&"code".to_string())
                            == Some(&Value::Symbol(TYPE_ERROR_OBJECT))
                    );
                }
                _ => panic!("Expected an object."),
            }
        }
        _ => panic!("Expected an effect value, got something else."),
    }
}

// let o = {a: 1, b: 2}; {b: 0, ...o, a: 5}
#[test]
fn a_later_element_of_an_object_wins() {
    let o = object(vec![kv("a", integer(1)), kv("b", integer(2))]);
    let merged = object(vec![kv("b", integer(0)), spread_object(ident("o")), kv("a", integer(5))]);
    let p = program(vec![let_name("o", o)], Some(merged));
    let mut expected = kal::value::Table::new();
    expected.insert_name("a".to_string(), Value::Int(5));
    expected.insert_name("b".to_string(), Value::Int(2));
    assert!(eval_program(p) == Value::Object(Rc::new(expected)));
}

#[test]
fn the_core_scope_names_the_error_symbols() {
    assert!(eval_program(program(vec![], Some(ident("error")))) == Value::Symbol(ERROR));
    let code = eval_program(program(vec![], Some(dot(ident("errors"), "error_loop"))));
    assert!(code == Value::Symbol(ERROR_LOOP));
}

// let s = symbol(); handle 1 + 2 { s: x => continue x }
#[test]
fn the_identity_handler_leaves_a_value_alone() {
    let identity = || arm("s", "x", block(vec![], Some(resume(Some(ident("x"))))));
    let with = program(
        vec![let_name("s", symbol_call())],
        Some(handle(plus(integer(1), integer(2)), vec![identity()])),
    );
    let without = program(vec![let_name("s", symbol_call())], Some(plus(integer(1), integer(2))));
    assert!(eval_program(with) == Value::Int(3));
    assert!(eval_program(without) == Value::Int(3));
}

// let s = symbol(); handle (send s 5) + 1 { s: x => continue x }
#[test]
fn the_identity_handler_answers_a_send_with_its_payload() {
    let identity = arm("s", "x", block(vec![], Some(resume(Some(ident("x"))))));
    let p = program(
        vec![let_name("s", symbol_call())],
        Some(handle(plus(send("s", Some(integer(5))), integer(1)), vec![identity])),
    );
    assert!(eval_program(p) == Value::Int(6));
}

// let e = symbol(); let f = fn() { send e 1 }; let x = f(); x
//
// The effect that `f` yields is bound to `x`. It has one owner, so `x`
// cannot be read.
#[test]
fn an_effect_cannot_be_read_from_a_binding() {
    let f = function(exactly(vec![]), block(vec![], Some(send("e", Some(integer(1))))));
    let p = program(
        vec![
            let_name("e", symbol_call()),
            let_name("f", f),
            let_name("x", call(ident("f"), vec![])),
        ],
        Some(ident("x")),
    );
    assert_eq!(Interpreter::new().eval(p).err(), Some(kal::fatal::Fatal::EffectCloned));
}

// let a = symbol(); let b = symbol();
// handle (handle (send a 1) { a: v => send b v }) { b: w => continue w + 1 }
//
// The arm of the inner handler sends in turn. The outer handler resumes the
// arm, and the arm's value is the inner handler's.
#[test]
fn an_arm_can_send_to_an_outer_handler() {
    let inner_arm = block(vec![], Some(send("b", Some(ident("v")))));
    let outer_arm = block(vec![], Some(resume(Some(plus(ident("w"), integer(1))))));
    let inner = handle(send("a", Some(integer(1))), vec![arm("a", "v", inner_arm)]);
    let outer = handle(inner, vec![arm("b", "w", outer_arm)]);
    let p = program(
        vec![let_name("a", symbol_call()), let_name("b", symbol_call())],
        Some(outer),
    );
    assert!(eval_program(p) == Value::Int(2));
}

// handle (send error 1) { error: v => v + 1 }
//
// The program is the `handle` alone: after the arm nothing is left to do.
#[test]
fn a_handle_can_be_the_whole_program() {
    let arm_body = block(vec![], Some(plus(ident("v"), integer(1))));
    let p = handle(send("error", Some(integer(1))), vec![arm("error", "v", arm_body)]);
    assert!(Interpreter::new().eval(p) == Ok(Value::Int(2)));
}

// loop { break 3 }
#[test]
fn a_loop_can_be_the_whole_program() {
    let p = kal::builder::repeat(block(vec![], Some(leave(Some(integer(3))))));
    assert!(Interpreter::new().eval(p) == Ok(Value::Int(3)));
}

// let e = symbol();
// let f = fn() { let i = 0; loop { if i >= 3 { break i }; i = send e i } };
// handle f() { e: v => continue v + 1 }
#[test]
fn a_loop_can_be_resumed_many_times() {
    let stop = if_else(
        vec![if_part(
            comparison(ComparisonOperator::GreaterEqual, ident("i"), integer(3)),
            block(vec![], Some(leave(Some(ident("i"))))),
        )],
        None,
    );
    let body = block(
        vec![
            kal::builder::expression_statement(stop),
            kal::builder::assignment(
                kal::builder::location("i", vec![]),
                send("e", Some(ident("i"))),
            ),
        ],
        None,
    );
    let f = function(
        exactly(vec![]),
        block(vec![let_name("i", integer(0))], Some(kal::builder::repeat(body))),
    );
    let arm_body = block(vec![], Some(resume(Some(plus(ident("v"), integer(1))))));
    let p = program(
        vec![let_name("e", symbol_call()), let_name("f", f)],
        Some(handle(call(ident("f"), vec![]), vec![arm("e", "v", arm_body)])),
    );
    assert!(eval_program(p) == Value::Int(3));
}
