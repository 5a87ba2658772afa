use kal::ast::{NumericOperator, Statement};
use kal::builder::{block, block_expression, ident, integer, let_name, numeric};
use kal::interpreter::Interpreter;
use kal::value::Value;
use std::rc::Rc;

// The program is "let num = 0; " followed by 4000000 times "let num=num+1;"
// and the trailing expression "num": the text "let num = 0; {} num" with the
// repeated statement in place of the braces.
#[test]
fn big_file() {
    let size = 4_000_000_i64;
    let step = let_name("num", numeric(NumericOperator::Add, ident("num"), integer(1)));
    let mut statements: Vec<Rc<Statement>> = Vec::with_capacity(size as usize + 1);
    statements.push(let_name("num", integer(0)));
    for _ in 0..size {
        statements.push(step.clone());
    }
    let ast = block_expression(block(statements, Some(ident("num"))));
    let mut runtime = Interpreter::new();
    let val = runtime.eval(ast).unwrap();
    assert!(val == Value::Int(size));
}
