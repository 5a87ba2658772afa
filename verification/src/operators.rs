//! Arithmetic, comparison and the boolean operators.
//!
//! Operands are evaluated left to right. The combining step then finds the
//! right operand on top of the value stack and the left one below it.

use crate::ast::{
    BooleanExpression, BooleanOperator, ComparisonExpression, ComparisonOperator,
    NegativeExpression, NotExpression, NumericExpression, NumericOperator,
};
use crate::equality::value_eq;
use crate::eval::{
    custom, expression, CheckIntMin, CheckTypeInt, Combiner, Custom, Eval, EvalView,
};
use crate::fatal::Fatal;
use crate::interpreter::{done, pop_pair, then_eval, Interpreter, InterpreterView};
use crate::value::{Value, ValueView};
use vstd::prelude::*;

verus! {

/// The outcome of a comparison. `==` and `!=` are answered for every two
/// values. An ordering exists between two integers only.
pub open spec fn compare(op: ComparisonOperator, left: ValueView, right: ValueView) -> Result<
    bool,
    Fatal,
> {
    match op {
        ComparisonOperator::Equal => Ok(value_eq(left, right)),
        ComparisonOperator::NotEqual => Ok(!value_eq(left, right)),
        _ => match (left, right) {
            (ValueView::Int(l), ValueView::Int(r)) => Ok(
                match op {
                    ComparisonOperator::Less => l < r,
                    ComparisonOperator::LessEqual => l <= r,
                    ComparisonOperator::Greater => l > r,
                    _ => l >= r,
                },
            ),
            _ => Err(Fatal::Comparison),
        },
    }
}

/// The quotient of `l` by `r`, rounded toward zero.
pub open spec fn truncated_quotient(l: int, r: int) -> int {
    if l >= 0 && r > 0 {
        l / r
    } else if l < 0 && r < 0 {
        (-l) / (-r)
    } else if l < 0 {
        -((-l) / r)
    } else {
        -(l / (-r))
    }
}

/// The outcome of an arithmetic operation on two integers. Sums, differences
/// and products wrap around at 64 bits. A quotient rounds toward zero.
pub open spec fn arithmetic(op: NumericOperator, l: i64, r: i64) -> Result<i64, Fatal> {
    match op {
        NumericOperator::Add => Ok(l.wrapping_add(r)),
        NumericOperator::Subtract => Ok(l.wrapping_sub(r)),
        NumericOperator::Multiply => Ok(l.wrapping_mul(r)),
        NumericOperator::Divide => if r == 0 {
            Err(Fatal::DivisionByZero)
        } else if l == i64::MIN && r == -1 {
            Err(Fatal::Overflow)
        } else {
            Ok(truncated_quotient(l as int, r as int) as i64)
        },
    }
}

/// The outcome of a boolean operation.
pub open spec fn connect(op: BooleanOperator, l: bool, r: bool) -> bool {
    match op {
        BooleanOperator::And => l && r,
        BooleanOperator::Or => l || r,
        BooleanOperator::Xor => l != r,
    }
}

/// Both operands are scheduled, the left one to run first, on top of the step
/// that compares their values.
pub open spec fn comparison_step(node: ComparisonExpression, s: InterpreterView) -> Result<
    InterpreterView,
    Fatal,
> {
    then_eval(
        then_eval(
            s.push_eval(custom("ComparisonInner", Combiner::ComparisonInner(node.operator))),
            expression(node.right),
        ),
        expression(node.left),
    )
}

/// The two values on top of the value stack give way to the answer.
pub open spec fn comparison_inner_step(op: ComparisonOperator, s: InterpreterView) -> Result<
    InterpreterView,
    Fatal,
> {
    match pop_pair(s) {
        Err(e) => Err(e),
        Ok((left, right, s2)) => match compare(op, left, right) {
            Err(e) => Err(e),
            Ok(b) => s2.push_value(ValueView::Bool(b)),
        },
    }
}

/// Both operands are scheduled, the left one to run first and each followed by
/// the check that its value is an integer, on top of the step that computes.
pub open spec fn numeric_step(node: NumericExpression, s: InterpreterView) -> Result<
    InterpreterView,
    Fatal,
> {
    then_eval(
        then_eval(
            then_eval(
                then_eval(
                    s.push_eval(custom("NumericInner", Combiner::NumericInner(node.operator))),
                    EvalView::Step(Eval::CheckTypeInt(CheckTypeInt { first: true })),
                ),
                expression(node.right),
            ),
            EvalView::Step(Eval::CheckTypeInt(CheckTypeInt { first: true })),
        ),
        expression(node.left),
    )
}

/// The two integers on top of the value stack give way to the outcome of the
/// operation.
pub open spec fn numeric_inner_step(op: NumericOperator, s: InterpreterView) -> Result<
    InterpreterView,
    Fatal,
> {
    match pop_pair(s) {
        Err(e) => Err(e),
        Ok((left, right, s2)) => match (left, right) {
            (ValueView::Int(l), ValueView::Int(r)) => match arithmetic(op, l, r) {
                Err(e) => Err(e),
                Ok(n) => s2.push_value(ValueView::Int(n)),
            },
            _ => Err(Fatal::NotInt),
        },
    }
}

/// Both operands are scheduled, the left one to run first, on top of the step
/// that connects their values. The right operand runs whatever the left one
/// yields.
pub open spec fn boolean_step(node: BooleanExpression, s: InterpreterView) -> Result<
    InterpreterView,
    Fatal,
> {
    then_eval(
        then_eval(
            s.push_eval(custom("BooleanInner", Combiner::BooleanInner(node.operator))),
            expression(node.right),
        ),
        expression(node.left),
    )
}

/// The two booleans on top of the value stack give way to the outcome of the
/// operation.
pub open spec fn boolean_inner_step(op: BooleanOperator, s: InterpreterView) -> Result<
    InterpreterView,
    Fatal,
> {
    match pop_pair(s) {
        Err(e) => Err(e),
        Ok((left, right, s2)) => match (left, right) {
            (ValueView::Bool(l), ValueView::Bool(r)) => s2.push_value(
                ValueView::Bool(connect(op, l, r)),
            ),
            _ => Err(Fatal::NotBool),
        },
    }
}

/// The operand is scheduled, followed by the checks that its value is an
/// integer and not the least one, on top of the step that negates.
pub open spec fn negative_step(node: NegativeExpression, s: InterpreterView) -> Result<
    InterpreterView,
    Fatal,
> {
    then_eval(
        then_eval(
            then_eval(
                s.push_eval(custom("NegativeInner", Combiner::NegativeInner)),
                EvalView::Step(Eval::CheckIntMin(CheckIntMin { first: true })),
            ),
            EvalView::Step(Eval::CheckTypeInt(CheckTypeInt { first: true })),
        ),
        expression(node.expr),
    )
}

/// The integer on top of the value stack gives way to its negation.
pub open spec fn negative_inner_step(s: InterpreterView) -> Result<InterpreterView, Fatal> {
    match s.pop_value() {
        Err(e) => Err(e),
        Ok((v, s1)) => match v {
            ValueView::Int(i) => if i == i64::MIN {
                Err(Fatal::Overflow)
            } else {
                s1.push_value(ValueView::Int((-i) as i64))
            },
            _ => Err(Fatal::NotInt),
        },
    }
}

/// The operand is scheduled on top of the step that negates its value.
pub open spec fn not_step(node: NotExpression, s: InterpreterView) -> Result<
    InterpreterView,
    Fatal,
> {
    then_eval(s.push_eval(custom("NotInner", Combiner::NotInner)), expression(node.expr))
}

/// The boolean on top of the value stack gives way to its negation.
pub open spec fn not_inner_step(s: InterpreterView) -> Result<InterpreterView, Fatal> {
    match s.pop_value() {
        Err(e) => Err(e),
        Ok((v, s1)) => match v {
            ValueView::Bool(b) => s1.push_value(ValueView::Bool(!b)),
            _ => Err(Fatal::NotBool),
        },
    }
}

/// Compares two values.
pub fn compare_values(op: ComparisonOperator, left: &Value, right: &Value) -> (r: Result<
    bool,
    Fatal,
>)
    ensures
        r == compare(op, left@, right@),
{
    match op {
        ComparisonOperator::Equal => Ok(left.equals(right)),
        ComparisonOperator::NotEqual => Ok(!left.equals(right)),
        _ => match (left, right) {
            (Value::Int(l), Value::Int(r)) => Ok(
                match op {
                    ComparisonOperator::Less => *l < *r,
                    ComparisonOperator::LessEqual => *l <= *r,
                    ComparisonOperator::Greater => *l > *r,
                    _ => *l >= *r,
                },
            ),
            _ => Err(Fatal::Comparison),
        },
    }
}

/// For `a >= 0` and `b > 0` the quotient lies between 0 and `a`, and below
/// `a` by half or more once `b` is at least 2.
proof fn lemma_quotient_bounds(a: int, b: int)
    requires
        a >= 0,
        b > 0,
    ensures
        0 <= a / b <= a,
        b >= 2 ==> 2 * (a / b) <= a,
{
    assert(0 <= a / b <= a && (b >= 2 ==> 2 * (a / b) <= a)) by (nonlinear_arith)
        requires
            a >= 0,
            b > 0,
    ;
}

/// Every quotient but that of the least integer by -1 is a 64-bit integer.
pub proof fn lemma_truncated_quotient_fits(l: i64, r: i64)
    requires
        r != 0,
        !(l == i64::MIN && r == -1),
    ensures
        i64::MIN <= truncated_quotient(l as int, r as int) <= i64::MAX,
        l.checked_div(r) == Some(truncated_quotient(l as int, r as int) as i64),
{
    let x = l as int;
    let d = r as int;
    if x >= 0 && d > 0 {
        lemma_quotient_bounds(x, d);
    } else if x < 0 && d < 0 {
        lemma_quotient_bounds(-x, -d);
        assert(x * -1 == -x);
        assert(d * -1 == -d);
    } else if x < 0 {
        lemma_quotient_bounds(-x, d);
        assert(x * -1 == -x);
        assert(((-x) / d) * -1 == -((-x) / d));
    } else {
        lemma_quotient_bounds(x, -d);
        assert(d * -1 == -d);
        assert((x / (-d)) * -1 == -(x / (-d)));
    }
}

/// Computes on two integers.
pub fn compute(op: NumericOperator, l: i64, r: i64) -> (q: Result<i64, Fatal>)
    ensures
        q == arithmetic(op, l, r),
{
    match op {
        NumericOperator::Add => Ok(l.wrapping_add(r)),
        NumericOperator::Subtract => Ok(l.wrapping_sub(r)),
        NumericOperator::Multiply => Ok(l.wrapping_mul(r)),
        NumericOperator::Divide => {
            if r == 0 {
                Err(Fatal::DivisionByZero)
            } else if l == i64::MIN && r == -1 {
                Err(Fatal::Overflow)
            } else {
                proof {
                    lemma_truncated_quotient_fits(l, r);
                }
                match l.checked_div(r) {
                    Some(q) => Ok(q),
                    None => Err(Fatal::Overflow),
                }
            }
        },
    }
}

/// Applies a boolean operator.
pub fn connect_values(op: BooleanOperator, l: bool, r: bool) -> (b: bool)
    ensures
        b == connect(op, l, r),
{
    match op {
        BooleanOperator::And => l && r,
        BooleanOperator::Or => l || r,
        BooleanOperator::Xor => (!l && r) || (!r && l),
    }
}

impl ComparisonExpression {
    /// Schedules both operands and the comparison of their values.
    pub fn eval(&self, machine: &mut Interpreter) -> (r: Result<(), Fatal>)
        ensures
            done(r, final(machine)@, comparison_step(*self, old(machine)@)),
    {
        machine.push_eval(Eval::Custom(Custom::new("ComparisonInner", Combiner::ComparisonInner(self.operator))))?;
        machine.push_eval(Eval::Expression(self.right.clone()))?;
        machine.push_eval(Eval::Expression(self.left.clone()))
    }

    pub fn short_name(&self) -> (r: &'static str)
        ensures
            r == "Comparison",
    {
        "Comparison"
    }
}

/// Takes two values and leaves whether they compare as `op` asks.
pub fn comparison_inner(op: ComparisonOperator, machine: &mut Interpreter) -> (r: Result<(), Fatal>)
    ensures
        done(r, final(machine)@, comparison_inner_step(op, old(machine)@)),
{
    let right = machine.pop_value()?;
    let left = machine.pop_value()?;
    let b = compare_values(op, &left, &right)?;
    machine.push_value(Value::Bool(b))
}

impl NumericExpression {
    /// Schedules both operands, each followed by the check that it is an
    /// integer, and the operation on their values.
    pub fn eval(&self, machine: &mut Interpreter) -> (r: Result<(), Fatal>)
        ensures
            done(r, final(machine)@, numeric_step(*self, old(machine)@)),
    {
        machine.push_eval(Eval::Custom(Custom::new("NumericInner", Combiner::NumericInner(self.operator))))?;
        machine.push_eval(Eval::CheckTypeInt(CheckTypeInt { first: true }))?;
        machine.push_eval(Eval::Expression(self.right.clone()))?;
        machine.push_eval(Eval::CheckTypeInt(CheckTypeInt { first: true }))?;
        machine.push_eval(Eval::Expression(self.left.clone()))
    }

    pub fn short_name(&self) -> (r: &'static str)
        ensures
            r == match self.operator {
                NumericOperator::Add => "Add",
                NumericOperator::Multiply => "Multiply",
                NumericOperator::Subtract => "Subtract",
                NumericOperator::Divide => "Divide",
            },
    {
        match self.operator {
            NumericOperator::Add => "Add",
            NumericOperator::Multiply => "Multiply",
            NumericOperator::Subtract => "Subtract",
            NumericOperator::Divide => "Divide",
        }
    }
}

/// Takes two integers and leaves the outcome of `op` on them.
pub fn numeric_inner(op: NumericOperator, machine: &mut Interpreter) -> (r: Result<(), Fatal>)
    ensures
        done(r, final(machine)@, numeric_inner_step(op, old(machine)@)),
{
    let right = machine.pop_value()?;
    let left = machine.pop_value()?;
    match (left, right) {
        (Value::Int(l), Value::Int(r)) => {
            let n = compute(op, l, r)?;
            machine.push_value(Value::Int(n))
        },
        _ => Err(Fatal::NotInt),
    }
}

impl BooleanExpression {
    /// Schedules both operands and the operation on their values. Both
    /// operands are evaluated, whatever the left one yields.
    pub fn eval(&self, machine: &mut Interpreter) -> (r: Result<(), Fatal>)
        ensures
            done(r, final(machine)@, boolean_step(*self, old(machine)@)),
    {
        machine.push_eval(Eval::Custom(Custom::new("BooleanInner", Combiner::BooleanInner(self.operator))))?;
        machine.push_eval(Eval::Expression(self.right.clone()))?;
        machine.push_eval(Eval::Expression(self.left.clone()))
    }

    pub fn short_name(&self) -> (r: &'static str)
        ensures
            r == "Boolean",
    {
        "Boolean"
    }
}

/// Takes two booleans and leaves the outcome of `op` on them.
pub fn boolean_inner(op: BooleanOperator, machine: &mut Interpreter) -> (r: Result<(), Fatal>)
    ensures
        done(r, final(machine)@, boolean_inner_step(op, old(machine)@)),
{
    let right = machine.pop_value()?;
    let left = machine.pop_value()?;
    match (left, right) {
        (Value::Bool(l), Value::Bool(r)) => machine.push_value(Value::Bool(connect_values(op, l, r))),
        _ => Err(Fatal::NotBool),
    }
}

impl NegativeExpression {
    /// Schedules the operand, the checks that it is an integer and not the
    /// least one, and the negation.
    pub fn eval(&self, machine: &mut Interpreter) -> (r: Result<(), Fatal>)
        ensures
            done(r, final(machine)@, negative_step(*self, old(machine)@)),
    {
        machine.push_eval(Eval::Custom(Custom::new("NegativeInner", Combiner::NegativeInner)))?;
        machine.push_eval(Eval::CheckIntMin(CheckIntMin { first: true }))?;
        machine.push_eval(Eval::CheckTypeInt(CheckTypeInt { first: true }))?;
        machine.push_eval(Eval::Expression(self.expr.clone()))
    }

    pub fn short_name(&self) -> (r: &'static str)
        ensures
            r == "Negative",
    {
        "Negative"
    }
}

/// Takes an integer and leaves its negation.
pub fn negative_inner(machine: &mut Interpreter) -> (r: Result<(), Fatal>)
    ensures
        done(r, final(machine)@, negative_inner_step(old(machine)@)),
{
    let v = machine.pop_value()?;
    match v {
        Value::Int(i) => {
            if i == i64::MIN {
                Err(Fatal::Overflow)
            } else {
                machine.push_value(Value::Int(-i))
            }
        },
        _ => Err(Fatal::NotInt),
    }
}

impl NotExpression {
    /// Schedules the operand and its negation.
    pub fn eval(&self, machine: &mut Interpreter) -> (r: Result<(), Fatal>)
        ensures
            done(r, final(machine)@, not_step(*self, old(machine)@)),
    {
        machine.push_eval(Eval::Custom(Custom::new("NotInner", Combiner::NotInner)))?;
        machine.push_eval(Eval::Expression(self.expr.clone()))
    }

    pub fn short_name(&self) -> (r: &'static str)
        ensures
            r == "Not",
    {
        "Not"
    }
}

/// Takes a boolean and leaves its negation.
pub fn not_inner(machine: &mut Interpreter) -> (r: Result<(), Fatal>)
    ensures
        done(r, final(machine)@, not_inner_step(old(machine)@)),
{
    let v = machine.pop_value()?;
    match v {
        Value::Bool(b) => machine.push_value(Value::Bool(!b)),
        _ => Err(Fatal::NotBool),
    }
}

} // verus!
