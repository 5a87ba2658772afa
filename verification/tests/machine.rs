use kal::ast::{ComparisonOperator, Expression, LetPattern, NumericOperator};
use kal::builder::{
    block, block_expression, boolean, call, comparison, elem, exactly, function, ident, if_else,
    if_part, index, integer, let_name, list, negative, numeric, param, repeat,
};
use kal::eval::{Combiner, Custom, Eval, IntoEval, WrapperFunction};
use kal::fatal::Fatal;
use kal::interpreter::Interpreter;
use kal::intrinsics::Intrinsic;
use kal::value::{FunctionContext, Scope, SubContext, SubContextType, Table, Value};
use std::rc::Rc;

fn forty_two() -> Rc<Expression> {
    block_expression(block(
        vec![let_name("x", numeric(NumericOperator::Add, integer(40), integer(2)))],
        Some(ident("x")),
    ))
}

#[test]
fn a_new_machine_has_one_context_with_one_sub_context() {
    let machine = Interpreter::new();
    assert_eq!(machine.fn_context_stack.len(), 1);
    assert_eq!(machine.fn_context_stack[0].sub_context_stack.len(), 1);
    assert_eq!(machine.sym_gen.counter, 0);
    assert!(machine.is_live());
    assert!(machine.lookup(&"symbol".to_string()) == Ok(Value::Intrinsic(Intrinsic::Symbol)));
    assert_eq!(machine.lookup(&"nobody".to_string()).err(), Some(Fatal::Unresolved));
}

// At the end of a program no function context is left, and so no
// sub-context.
#[test]
fn a_finished_machine_is_empty() {
    let mut machine = Interpreter::new();
    assert!(machine.eval(forty_two()) == Ok(Value::Int(42)));
    assert_eq!(machine.fn_context_stack.len(), 0);
    assert!(!machine.is_live());
    assert_eq!(machine.eval(forty_two()).err(), Some(Fatal::NoContext));
}

#[test]
fn evaluating_twice_gives_equal_values() {
    assert!(Interpreter::new().eval(forty_two()) == Interpreter::new().eval(forty_two()));
}

#[test]
fn a_run_can_be_taken_up_again() {
    let mut machine = Interpreter::new();
    machine
        .push_eval(Eval::WrapperFunction(WrapperFunction { body: forty_two() }))
        .unwrap();
    assert!(machine.run(0) == Ok(None));
    assert!(machine.run(3) == Ok(None));
    let mut steps = 3;
    loop {
        steps += 1;
        match machine.step().unwrap() {
            Some(v) => {
                assert!(v == Value::Int(42));
                break;
            }
            None => assert!(steps < 1000),
        }
    }
    let mut again = Interpreter::new();
    again
        .push_eval(Eval::WrapperFunction(WrapperFunction { body: forty_two() }))
        .unwrap();
    assert!(again.run(steps - 1) == Ok(None));
    assert!(again.run(1) == Ok(Some(Value::Int(42))));
}

// loop {}
#[test]
fn a_loop_without_break_uses_up_any_budget() {
    let mut machine = Interpreter::new();
    let forever = repeat(block(vec![], None));
    machine.push_eval(Eval::WrapperFunction(WrapperFunction { body: forever })).unwrap();
    assert!(machine.run(10_000) == Ok(None));
    assert!(machine.is_live());
}

// A sub-context without instructions is left, and it has no value to yield.
#[test]
fn stepping_without_an_instruction_is_fatal() {
    let mut machine = Interpreter::new();
    assert_eq!(machine.step().err(), Some(Fatal::NoValue));
}

// A sub-context without instructions yields the value it is left with.
#[test]
fn a_value_alone_is_a_finished_program() {
    let mut machine = Interpreter::new();
    machine.push_value(Value::Int(5)).unwrap();
    assert!(machine.step() == Ok(Some(Value::Int(5))));
    assert_eq!(machine.fn_context_stack.len(), 0);
}

#[test]
fn values_come_off_in_reverse() {
    let mut machine = Interpreter::new();
    machine.push_value(Value::Int(1)).unwrap();
    machine.push_value(Value::Int(2)).unwrap();
    machine.push_value(Value::Int(3)).unwrap();
    assert!(machine.take_values(2).unwrap() == vec![Value::Int(2), Value::Int(3)]);
    assert!(machine.pop_value() == Ok(Value::Int(1)));
    assert_eq!(machine.pop_value().err(), Some(Fatal::NoValue));
    assert_eq!(machine.take_values(1).err(), Some(Fatal::NoValue));
}

#[test]
fn instructions_run_last_pushed_first() {
    let mut machine = Interpreter::new();
    machine.push_eval(Custom::new("NotInner", Combiner::NotInner).into_eval()).unwrap();
    machine.push_eval(integer(5).into_eval()).unwrap();
    assert_eq!(machine.current_eval_stack().len(), 2);
    assert_eq!(machine.pop_eval().unwrap().short_name(), "Expression");
    assert_eq!(machine.pop_eval().unwrap().short_name(), "NotInner");
    assert_eq!(machine.pop_eval().err(), Some(Fatal::NoInstruction));
}

// Opening a scope and closing it again leaves the scope chain as it was.
#[test]
fn push_then_pop_scope_restores_the_chain() {
    let mut machine = Interpreter::new();
    let before = machine.current_scope().clone();
    machine.push_scope().unwrap();
    assert!(!Rc::ptr_eq(machine.current_scope(), &before));
    machine.create_binding("x".to_string(), Value::Int(1)).unwrap();
    assert!(machine.lookup(&"x".to_string()) == Ok(Value::Int(1)));
    machine.pop_scope().unwrap();
    assert!(Rc::ptr_eq(machine.current_scope(), &before));
    assert_eq!(machine.lookup(&"x".to_string()).err(), Some(Fatal::Unresolved));
    assert_eq!(machine.pop_scope().err(), Some(Fatal::NoScope));
}

#[test]
fn leaving_a_sub_context_closes_its_scopes() {
    let mut machine = Interpreter::new();
    let before = machine.current_scope().clone();
    machine.push_sub_context(SubContext::new(SubContextType::Plain)).unwrap();
    machine.push_scope().unwrap();
    machine.push_scope().unwrap();
    assert_eq!(machine.current_sub_context().num_scopes, 2);
    let left = machine.pop_sub_context().unwrap();
    assert_eq!(left.num_scopes, 0);
    assert!(Rc::ptr_eq(machine.current_scope(), &before));
    assert_eq!(machine.current_fn_context().sub_context_stack.len(), 1);
}

// The current scope is replaced by a fresh child and a second fresh child
// is handed out; both lie inside what was the current scope.
#[test]
fn branching_splits_the_chain() {
    let mut machine = Interpreter::new();
    machine.push_scope().unwrap();
    machine.create_binding("x".to_string(), Value::Int(1)).unwrap();
    let shared = machine.current_scope().clone();
    drop(shared);
    let captured = machine.branch_scope().unwrap();
    assert!(Scope::resolve_binding(&captured, &"x".to_string()) == Some(&Value::Int(1)));
    assert!(machine.lookup(&"x".to_string()) == Ok(Value::Int(1)));
    machine.create_binding("y".to_string(), Value::Int(2)).unwrap();
    assert!(Scope::resolve_binding(&captured, &"y".to_string()).is_none());
    assert!(machine.lookup(&"y".to_string()) == Ok(Value::Int(2)));
}

#[test]
fn a_shared_frame_takes_no_binding() {
    let mut machine = Interpreter::new();
    machine.push_scope().unwrap();
    let holder = machine.current_scope().clone();
    assert_eq!(
        machine.create_binding("x".to_string(), Value::Int(1)).err(),
        Some(Fatal::Aliased)
    );
    drop(holder);
}

#[test]
fn binding_by_pattern_on_the_machine() {
    let mut machine = Interpreter::new();
    machine.push_scope().unwrap();
    machine.bind(&LetPattern::Ident("x".to_string()), Value::Int(5)).unwrap();
    assert!(machine.lookup(&"x".to_string()) == Ok(Value::Int(5)));
}

#[test]
fn function_contexts_stack() {
    let mut machine = Interpreter::new();
    let scope = Rc::new(Scope::with_bindings(None, Table::new()));
    machine.push_fn_context(FunctionContext::new(scope));
    assert_eq!(machine.fn_context_stack.len(), 2);
    machine.push_value(Value::Int(1)).unwrap();
    assert_eq!(machine.current_value_stack().len(), 1);
    let left = machine.pop_fn_context().unwrap();
    assert_eq!(left.sub_context_stack.len(), 1);
    assert_eq!(machine.current_value_stack().len(), 0);
    machine.pop_fn_context().unwrap();
    assert_eq!(machine.pop_fn_context().err(), Some(Fatal::NoContext));
    assert_eq!(machine.push_value(Value::Null).err(), Some(Fatal::NoContext));
    assert_eq!(machine.push_scope().err(), Some(Fatal::NoContext));
}

#[test]
fn intrinsics_have_a_fixed_arity_and_a_step() {
    assert_eq!(Intrinsic::Symbol.num_parameters(), 0);
    assert_eq!(Intrinsic::Symbol.code().short_name(), "IntrinsicSymbol");
    let mut machine = Interpreter::new();
    assert!(machine.gen_symbol() == Ok(Value::Symbol(0)));
    assert!(machine.gen_symbol() == Ok(Value::Symbol(1)));
}

// loop {}
#[test]
fn a_program_that_does_not_end_is_given_up() {
    let forever = repeat(block(vec![], None));
    assert_eq!(Interpreter::new().eval_within(forever, 1000).err(), Some(Fatal::Exhausted));
    assert!(Interpreter::new().eval_within(forty_two(), 1000) == Ok(Value::Int(42)));
    assert_eq!(Interpreter::new().eval_within(forty_two(), 3).err(), Some(Fatal::Exhausted));
}

// let f = fn(g) { g(g) }; f(f)
//
// No loop and no effect, and still no end.
#[test]
fn a_function_that_calls_itself_for_ever_is_given_up() {
    let f = function(
        exactly(vec![param("g")]),
        block(vec![], Some(call(ident("g"), vec![elem(ident("g"))]))),
    );
    let p = block_expression(block(
        vec![let_name("f", f)],
        Some(call(ident("f"), vec![elem(ident("f"))])),
    ));
    assert_eq!(Interpreter::new().eval_within(p, 10_000).err(), Some(Fatal::Exhausted));
}

// A sub-context must end with its result and nothing else.
#[test]
fn a_sub_context_that_ends_with_two_values_is_fatal() {
    let mut machine = Interpreter::new();
    machine.push_value(Value::Int(1)).unwrap();
    machine.push_value(Value::Int(2)).unwrap();
    assert_eq!(machine.step().err(), Some(Fatal::Unbalanced));
}

// 40 + 2 weighs ten: one for itself, one for each operand, three for each
// check of an operand and one for the step that adds. As a program it ends
// within two steps more. The block around it in `let x = 40 + 2; x` weighs
// three, the binding two and the name one.
#[test]
fn an_expression_without_loops_and_calls_ends_within_its_weight() {
    let sum = numeric(NumericOperator::Add, integer(40), integer(2));
    assert!(Interpreter::new().eval_within(sum, 12) == Ok(Value::Int(42)));
    assert!(Interpreter::new().eval_within(forty_two(), 18) == Ok(Value::Int(42)));
}

// -true
//
// The error that the check raises is handled by nobody: the program ends
// with the effect, within the bound that its weight of nine gives.
#[test]
fn an_expression_that_raises_ends_within_its_weight() {
    let r = Interpreter::new().eval_within(negative(boolean(true)), 11);
    assert!(matches!(r, Ok(Value::Effect(_))));
}

// let x = [1, 2]; if x[0] == 1 { 7 } else { 8 }
//
// The list weighs four and its binding two more, the condition seven, each
// branch four, the `if` with its step seventeen, the block three.
#[test]
fn a_branching_program_ends_within_its_weight() {
    let cond = comparison(ComparisonOperator::Equal, index(ident("x"), integer(0)), integer(1));
    let branch = if_else(
        vec![if_part(cond, block(vec![], Some(integer(7))))],
        Some(block(vec![], Some(integer(8)))),
    );
    let p = block_expression(block(
        vec![let_name("x", list(vec![elem(integer(1)), elem(integer(2))]))],
        Some(branch),
    ));
    assert!(Interpreter::new().eval_within(p, 28) == Ok(Value::Int(7)));
}
