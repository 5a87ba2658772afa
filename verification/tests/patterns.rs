use kal::ast::{
    Expression, LetPattern, ListPattern, ListSubPattern, ObjectFinalPosition, ObjectPattern,
    ObjectSubPattern, SpreadPattern, Statement,
};
use kal::builder::{
    block, block_expression, call, elem, exactly, function, ident, integer, kv, let_name,
    let_pattern, list, object, param, spread_elem,
};
use kal::fatal::Fatal;
use kal::interpreter::Interpreter;
use kal::pattern::{bind_items, bind_pattern};
use kal::value::{Table, Value};
use std::rc::Rc;

fn eval(statements: Vec<Rc<Statement>>, tail: Rc<Expression>) -> Result<Value, Fatal> {
    Interpreter::new().eval(block_expression(block(statements, Some(tail))))
}

fn ints(items: Vec<i64>) -> Rc<Expression> {
    list(items.into_iter().map(|i| elem(integer(i))).collect())
}

fn name(n: &str) -> ListSubPattern {
    param(n)
}

fn with_spread(before: Vec<&str>, spread: SpreadPattern, after: Vec<&str>) -> ListPattern {
    ListPattern {
        before_params: before.into_iter().map(name).collect(),
        spread_and_after_params: Some((spread, after.into_iter().map(name).collect())),
    }
}

fn fields(names: Vec<&str>, tail: ObjectFinalPosition) -> ObjectPattern {
    ObjectPattern {
        params: names.into_iter().map(|n| ObjectSubPattern::Ident(n.to_string())).collect(),
        final_param: tail,
    }
}

fn value_list(items: Vec<i64>) -> Value {
    Value::List(Rc::new(items.into_iter().map(Value::Int).collect()))
}

// let [a, ...rest, b] = [1, 2, 3, 4]; rest
#[test]
fn spread_binds_the_middle() {
    let pattern = LetPattern::List(with_spread(
        vec!["a"],
        SpreadPattern::Named("rest".to_string()),
        vec!["b"],
    ));
    let r = eval(vec![let_pattern(pattern, ints(vec![1, 2, 3, 4]))], ident("rest"));
    assert!(r.unwrap() == value_list(vec![2, 3]));
}

// let [a, ...rest, b] = [1, 2, 3, 4]; b
#[test]
fn spread_leaves_the_last_to_the_pattern_after_it() {
    let pattern = LetPattern::List(with_spread(
        vec!["a"],
        SpreadPattern::Named("rest".to_string()),
        vec!["b"],
    ));
    let r = eval(vec![let_pattern(pattern, ints(vec![1, 2, 3, 4]))], ident("b"));
    assert!(r.unwrap() == Value::Int(4));
}

#[test]
fn spread_may_bind_nothing() {
    let pattern = LetPattern::List(with_spread(
        vec!["a"],
        SpreadPattern::Named("rest".to_string()),
        vec!["b"],
    ));
    let r = eval(vec![let_pattern(pattern, ints(vec![1, 2]))], ident("rest"));
    assert!(r.unwrap() == value_list(vec![]));
}

#[test]
fn nameless_spread_drops_the_middle() {
    let pattern = LetPattern::List(with_spread(vec!["a"], SpreadPattern::Unnamed, vec!["b"]));
    let r = eval(vec![let_pattern(pattern, ints(vec![1, 2, 3]))], ident("b"));
    assert!(r.unwrap() == Value::Int(3));
}

#[test]
fn list_pattern_without_spread_takes_exactly_its_length() {
    let two = || LetPattern::List(exactly(vec![name("a"), name("b")]));
    assert!(eval(vec![let_pattern(two(), ints(vec![7, 8]))], ident("b")).unwrap() == Value::Int(8));
    assert_eq!(
        eval(vec![let_pattern(two(), ints(vec![7, 8, 9]))], ident("b")).err(),
        Some(Fatal::PatternLength)
    );
    assert_eq!(
        eval(vec![let_pattern(two(), ints(vec![7]))], ident("b")).err(),
        Some(Fatal::PatternLength)
    );
}

#[test]
fn list_pattern_with_spread_needs_enough_items() {
    let pattern = LetPattern::List(with_spread(
        vec!["a", "b"],
        SpreadPattern::Named("rest".to_string()),
        vec!["c"],
    ));
    assert_eq!(
        eval(vec![let_pattern(pattern, ints(vec![1, 2]))], ident("a")).err(),
        Some(Fatal::PatternLength)
    );
}

#[test]
fn empty_list_pattern_takes_the_empty_list() {
    let pattern = LetPattern::List(exactly(vec![]));
    assert!(eval(vec![let_pattern(pattern, ints(vec![]))], integer(1)).unwrap() == Value::Int(1));
}

#[test]
fn list_pattern_needs_a_list() {
    let pattern = LetPattern::List(exactly(vec![name("a")]));
    assert_eq!(
        eval(vec![let_pattern(pattern, integer(1))], ident("a")).err(),
        Some(Fatal::PatternKind)
    );
}

// let [a, [b, c]] = [1, [2, 3]]; c
#[test]
fn nested_list_patterns() {
    let inner = ListSubPattern::List(Box::new(exactly(vec![name("b"), name("c")])));
    let pattern = LetPattern::List(exactly(vec![name("a"), inner]));
    let value = list(vec![elem(integer(1)), elem(ints(vec![2, 3]))]);
    assert!(eval(vec![let_pattern(pattern, value)], ident("c")).unwrap() == Value::Int(3));
}

// let {x, y} = {x: 1, y: 2, z: 3}; y
#[test]
fn object_pattern_binds_fields_by_name() {
    let pattern = LetPattern::Object(fields(vec!["x", "y"], ObjectFinalPosition::Absent));
    let value = object(vec![kv("x", integer(1)), kv("y", integer(2)), kv("z", integer(3))]);
    assert!(eval(vec![let_pattern(pattern, value)], ident("y")).unwrap() == Value::Int(2));
}

#[test]
fn object_pattern_needs_every_field() {
    let pattern = LetPattern::Object(fields(vec!["x", "w"], ObjectFinalPosition::Absent));
    let value = object(vec![kv("x", integer(1))]);
    assert_eq!(
        eval(vec![let_pattern(pattern, value)], ident("x")).err(),
        Some(Fatal::PatternField)
    );
}

#[test]
fn object_pattern_needs_an_object() {
    let pattern = LetPattern::Object(fields(vec!["x"], ObjectFinalPosition::Absent));
    assert_eq!(
        eval(vec![let_pattern(pattern, ints(vec![1]))], ident("x")).err(),
        Some(Fatal::PatternKind)
    );
}

// let {x, ...rest} = {x: 1, y: 2, z: 3}; rest
#[test]
fn object_spread_binds_what_is_left() {
    let pattern =
        LetPattern::Object(fields(vec!["x"], ObjectFinalPosition::Spread("rest".to_string())));
    let value = object(vec![kv("x", integer(1)), kv("y", integer(2)), kv("z", integer(3))]);
    let mut expected = Table::new();
    expected.insert_name("z".to_string(), Value::Int(3));
    expected.insert_name("y".to_string(), Value::Int(2));
    assert!(
        eval(vec![let_pattern(pattern, value)], ident("rest")).unwrap()
            == Value::Object(Rc::new(expected))
    );
}

// let {x, *} = {x: 1, y: 2}; y
#[test]
fn wildcard_binds_every_other_field() {
    let pattern = LetPattern::Object(fields(vec!["x"], ObjectFinalPosition::Wildcard));
    let value = object(vec![kv("x", integer(1)), kv("y", integer(2))]);
    assert!(eval(vec![let_pattern(pattern, value)], ident("y")).unwrap() == Value::Int(2));
}

#[test]
fn nameless_object_spread_binds_nothing_more() {
    let pattern = LetPattern::Object(fields(vec!["x"], ObjectFinalPosition::SpreadNameless));
    let value = object(vec![kv("x", integer(1)), kv("y", integer(2))]);
    assert_eq!(
        eval(vec![let_pattern(pattern, value)], ident("y")).err(),
        Some(Fatal::Unresolved)
    );
}

// let {p: [a, b]} = {p: [1, 2]}; b
#[test]
fn object_pattern_with_nested_list() {
    let pattern = LetPattern::Object(ObjectPattern {
        params: vec![ObjectSubPattern::List(
            "p".to_string(),
            Box::new(exactly(vec![name("a"), name("b")])),
        )],
        final_param: ObjectFinalPosition::Absent,
    });
    let value = object(vec![kv("p", ints(vec![1, 2]))]);
    assert!(eval(vec![let_pattern(pattern, value)], ident("b")).unwrap() == Value::Int(2));
}

// let {p: {q}} = {p: {q: 9}}; q
#[test]
fn object_pattern_with_nested_object() {
    let pattern = LetPattern::Object(ObjectPattern {
        params: vec![ObjectSubPattern::Object(
            "p".to_string(),
            Box::new(fields(vec!["q"], ObjectFinalPosition::Absent)),
        )],
        final_param: ObjectFinalPosition::Absent,
    });
    let value = object(vec![kv("p", object(vec![kv("q", integer(9))]))]);
    assert!(eval(vec![let_pattern(pattern, value)], ident("q")).unwrap() == Value::Int(9));
}

// let xs = [1, 2]; let [a, b] = xs; a + xs[1]
//
// A pattern of names binds handles on the items; `xs` keeps the list.
#[test]
fn names_bind_the_items_of_a_shared_list() {
    let pattern = LetPattern::List(exactly(vec![name("a"), name("b")]));
    let r = eval(
        vec![let_name("xs", ints(vec![1, 2])), let_pattern(pattern, ident("xs"))],
        kal::builder::numeric(
            kal::ast::NumericOperator::Add,
            ident("a"),
            kal::builder::index(ident("xs"), integer(1)),
        ),
    );
    assert!(r.unwrap() == Value::Int(3));
}

// let o = {x: 1, y: 2}; let {x, ...rest} = o; rest == {y: 2} and o.x
#[test]
fn names_bind_the_fields_of_a_shared_object() {
    let pattern =
        LetPattern::Object(fields(vec!["x"], ObjectFinalPosition::Spread("rest".to_string())));
    let o = object(vec![kv("x", integer(1)), kv("y", integer(2))]);
    let r = eval(
        vec![let_name("o", o), let_pattern(pattern, ident("o"))],
        list(vec![elem(ident("rest")), elem(kal::builder::dot(ident("o"), "x"))]),
    );
    let mut rest = Table::new();
    rest.insert_name("y".to_string(), Value::Int(2));
    let expected = Value::List(Rc::new(vec![Value::Object(Rc::new(rest)), Value::Int(1)]));
    assert!(r.unwrap() == expected);
}

// let xs = [[1, 2]]; let [[a, b]] = xs; a
//
// The nested pattern takes its item out of the list, and `xs` still holds
// the list.
#[test]
fn a_shared_list_cannot_be_taken_apart() {
    let inner = ListSubPattern::List(Box::new(exactly(vec![name("a"), name("b")])));
    let pattern = LetPattern::List(exactly(vec![inner]));
    let r = eval(
        vec![
            let_name("xs", list(vec![elem(ints(vec![1, 2]))])),
            let_pattern(pattern, ident("xs")),
        ],
        ident("a"),
    );
    assert_eq!(r.err(), Some(Fatal::Aliased));
}

// let f = fn(a, ...rest) { rest }; f(1, 2, 3)
#[test]
fn parameters_with_a_spread() {
    let f = function(
        with_spread(vec!["a"], SpreadPattern::Named("rest".to_string()), vec![]),
        block(vec![], Some(ident("rest"))),
    );
    let r = eval(
        vec![let_name("f", f)],
        call(ident("f"), vec![elem(integer(1)), elem(integer(2)), elem(integer(3))]),
    );
    assert!(r.unwrap() == value_list(vec![2, 3]));
}

// let f = fn(a, b) { b }; f(...[1, 2])
#[test]
fn arguments_with_a_spread() {
    let f = function(exactly(vec![name("a"), name("b")]), block(vec![], Some(ident("b"))));
    let r = eval(vec![let_name("f", f)], call(ident("f"), vec![spread_elem(ints(vec![1, 2]))]));
    assert!(r.unwrap() == Value::Int(2));
}

#[test]
fn a_call_checks_the_number_of_arguments() {
    let f = || function(exactly(vec![name("a"), name("b")]), block(vec![], Some(ident("b"))));
    assert_eq!(
        eval(vec![let_name("f", f())], call(ident("f"), vec![elem(integer(1))])).err(),
        Some(Fatal::Arity)
    );
    assert_eq!(
        eval(
            vec![let_name("f", f())],
            call(ident("f"), vec![elem(integer(1)), elem(integer(2)), elem(integer(3))])
        )
        .err(),
        Some(Fatal::Arity)
    );
}

#[test]
fn binding_directly_into_a_frame() {
    let mut frame = Table::new();
    let pattern = LetPattern::Ident("x".to_string());
    assert_eq!(bind_pattern(&mut frame, &pattern, Value::Int(3)), Ok(()));
    assert!(frame.get_name(&"x".to_string()) == Some(&Value::Int(3)));
    let two = exactly(vec![name("a"), name("b")]);
    assert_eq!(bind_items(&mut frame, &two, vec![Value::Int(1), Value::Int(2)]), Ok(()));
    assert!(frame.get_name(&"b".to_string()) == Some(&Value::Int(2)));
    assert_eq!(bind_items(&mut frame, &two, vec![Value::Int(1)]), Err(Fatal::PatternLength));
}

#[test]
fn list_pattern_lengths() {
    let two = exactly(vec![name("a"), name("b")]);
    assert!(two.takes(2));
    assert!(!two.takes(1));
    assert!(!two.takes(3));
    let open = with_spread(vec!["a"], SpreadPattern::Unnamed, vec!["b", "c"]);
    assert!(!open.takes(2));
    assert!(open.takes(3));
    assert!(open.takes(10));
}

// let xs = [1, 2]; let f = fn(a, b) { b }; f(xs, xs)
//
// Parameters that are names bind what they are given, shared or not.
#[test]
fn names_bind_shared_arguments() {
    let f = function(exactly(vec![name("a"), name("b")]), block(vec![], Some(ident("b"))));
    let r = eval(
        vec![let_name("xs", ints(vec![1, 2])), let_name("f", f)],
        call(ident("f"), vec![elem(ident("xs")), elem(ident("xs"))]),
    );
    assert!(r.unwrap() == value_list(vec![1, 2]));
}

// let xs = [1, 2]; let f = fn([a, b]) { b }; f(xs)
//
// The parameter is a nested pattern: it owns what it takes apart, and `xs`
// still holds the argument.
#[test]
fn a_nested_parameter_needs_its_argument_unshared() {
    let f = || function(exactly(vec![nested_copy()]), block(vec![], Some(ident("b"))));
    let shared = eval(
        vec![let_name("xs", ints(vec![1, 2])), let_name("f", f())],
        call(ident("f"), vec![elem(ident("xs"))]),
    );
    assert_eq!(shared.err(), Some(Fatal::Aliased));
    let fresh = eval(vec![let_name("f", f())], call(ident("f"), vec![elem(ints(vec![1, 2]))]));
    assert!(fresh.unwrap() == Value::Int(2));
}

#[test]
fn a_nested_pattern_owns_what_it_takes() {
    let mut frame = Table::new();
    let two = exactly(vec![name("a"), name("b")]);
    let xs = value_list(vec![1, 2]);
    let held = xs.try_clone().unwrap();
    assert_eq!(kal::pattern::own_list(&mut frame, &two, xs), Err(Fatal::Aliased));
    assert_eq!(kal::pattern::own_list(&mut frame, &two, held), Ok(()));
    assert!(frame.get_name(&"a".to_string()) == Some(&Value::Int(1)));
    assert_eq!(kal::pattern::own_list(&mut frame, &two, Value::Null), Err(Fatal::PatternKind));
    let none = fields(vec![], ObjectFinalPosition::Absent);
    let o = Value::Object(Rc::new(Table::new()));
    let kept = o.try_clone().unwrap();
    assert_eq!(kal::pattern::own_object(&mut frame, &none, o), Err(Fatal::Aliased));
    assert_eq!(kal::pattern::own_object(&mut frame, &none, kept), Ok(()));
    assert_eq!(kal::pattern::own_object(&mut frame, &none, Value::Int(1)), Err(Fatal::PatternKind));
}

fn nested_copy() -> ListSubPattern {
    ListSubPattern::List(Box::new(exactly(vec![name("a"), name("b")])))
}

#[test]
fn taking_a_table_apart() {
    let mut frame = Table::new();
    let mut table = Table::new();
    table.insert_name("x".to_string(), Value::Int(1));
    table.insert_name("y".to_string(), Value::Int(2));
    let pattern = fields(vec!["x"], ObjectFinalPosition::Wildcard);
    assert_eq!(kal::pattern::bind_table(&mut frame, &pattern, table), Ok(()));
    assert!(frame.get_name(&"x".to_string()) == Some(&Value::Int(1)));
    assert!(frame.get_name(&"y".to_string()) == Some(&Value::Int(2)));
    let missing = fields(vec!["z"], ObjectFinalPosition::Absent);
    assert_eq!(
        kal::pattern::bind_table(&mut frame, &missing, Table::new()),
        Err(Fatal::PatternField)
    );
}

#[test]
fn the_wrong_kind_is_refused_before_sharing_is_asked() {
    let mut frame = Table::new();
    let two = exactly(vec![name("a"), name("b")]);
    assert_eq!(
        kal::pattern::bind_list_of(&mut frame, &two, Value::Int(1)),
        Err(Fatal::PatternKind)
    );
    let none = fields(vec![], ObjectFinalPosition::Absent);
    assert_eq!(
        kal::pattern::bind_object_of(&mut frame, &none, Value::Null),
        Err(Fatal::PatternKind)
    );
    let xs = value_list(vec![1, 2]);
    let held = xs.try_clone().unwrap();
    assert_eq!(kal::pattern::bind_list_of(&mut frame, &two, xs), Ok(()));
    assert!(frame.get_name(&"b".to_string()) == Some(&Value::Int(2)));
    let nested = exactly(vec![nested_copy()]);
    let outer = Value::List(Rc::new(vec![held]));
    let kept = outer.try_clone().unwrap();
    assert_eq!(kal::pattern::bind_list_of(&mut frame, &nested, outer), Err(Fatal::Aliased));
    assert_eq!(kal::pattern::bind_list_of(&mut frame, &nested, kept), Ok(()));
    assert!(frame.get_name(&"a".to_string()) == Some(&Value::Int(1)));
}

#[test]
fn patterns_know_whether_they_nest() {
    assert!(!exactly(vec![name("a"), name("b")]).nests());
    assert!(exactly(vec![name("a"), nested_copy()]).nests());
    assert!(with_spread(vec!["a"], SpreadPattern::Unnamed, vec!["b"]).nests() == false);
    assert!(!fields(vec!["x"], ObjectFinalPosition::Wildcard).nests());
    let deep = ObjectPattern {
        params: vec![ObjectSubPattern::List("p".to_string(), Box::new(exactly(vec![])))],
        final_param: ObjectFinalPosition::Absent,
    };
    assert!(deep.nests());
}

// let f = fn([a, b]) { b }; f(1)
//
// What is no list is refused, whoever holds it.
#[test]
fn a_nested_parameter_refuses_the_wrong_kind() {
    let f = function(exactly(vec![nested_copy()]), block(vec![], Some(ident("b"))));
    let r = eval(
        vec![let_name("one", integer(1)), let_name("f", f)],
        call(ident("f"), vec![elem(ident("one"))]),
    );
    assert_eq!(r.err(), Some(Fatal::PatternKind));
}
