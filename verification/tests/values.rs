use kal::aggregates::wrap_list_index;
use kal::interpreter::SymbolGenerator;
use kal::symbols::error_codes::{
    ERROR_CODE_FLOOR, ERROR_CODE_START, ERROR_LOOP, INT_MIN_NEGATION, TYPE_ERROR_INT,
    TYPE_ERROR_OBJECT,
};
use kal::symbols::ERROR;
use kal::fatal::Fatal;
use kal::value::{Key, Table, Value};
use std::rc::Rc;

fn list(items: Vec<Value>) -> Value {
    Value::List(Rc::new(items))
}

fn object(entries: Vec<(&str, Value)>) -> Value {
    let mut table = Table::new();
    for (name, value) in entries {
        table.insert_name(name.to_string(), value);
    }
    Value::Object(Rc::new(table))
}

#[test]
fn size_of_value() {
    // The Value type is a Rust enum. It has 8 bytes for the discriminant, plus
    // the size in bytes of the largest variant. I would like all variants to be
    // 8 bytes or smaller for performance
    assert_eq!(std::mem::size_of::<Value>(), 16);
}

#[test]
fn integers_compare_by_number() {
    assert!(Value::Int(4) == Value::Int(4));
    assert!(Value::Int(4) != Value::Int(5));
    assert!(Value::Int(1) != Value::Bool(true));
}

#[test]
fn plain_values_equal_themselves() {
    let values = vec![
        Value::Null,
        Value::Bool(false),
        Value::Int(-3),
        Value::Symbol(7),
        list(vec![Value::Int(1), list(vec![Value::Null])]),
        object(vec![("a", Value::Int(1)), ("b", list(vec![]))]),
    ];
    for v in values.iter() {
        assert!(v == v);
    }
}

#[test]
fn lists_compare_item_by_item() {
    assert!(list(vec![Value::Int(1), Value::Int(2)]) == list(vec![Value::Int(1), Value::Int(2)]));
    assert!(list(vec![Value::Int(1), Value::Int(2)]) != list(vec![Value::Int(2), Value::Int(1)]));
    assert!(list(vec![Value::Int(1)]) != list(vec![Value::Int(1), Value::Int(1)]));
    assert!(list(vec![]) == list(vec![]));
}

#[test]
fn objects_compare_key_by_key() {
    let a = object(vec![("x", Value::Int(1)), ("y", Value::Int(2))]);
    let b = object(vec![("y", Value::Int(2)), ("x", Value::Int(1))]);
    let c = object(vec![("x", Value::Int(1))]);
    let d = object(vec![("x", Value::Int(1)), ("y", Value::Int(3))]);
    assert!(a == b);
    assert!(a != c);
    assert!(c != a);
    assert!(a != d);
    assert!(object(vec![]) == object(vec![]));
    assert!(object(vec![]) != list(vec![]));
}

#[test]
fn a_later_entry_replaces_an_earlier_one() {
    let mut table = Table::new();
    table.insert(Key::Int(1), Value::Int(10));
    table.insert(Key::Str("k".to_string()), Value::Int(20));
    table.insert(Key::Int(1), Value::Int(30));
    assert_eq!(table.len(), 2);
    assert!(table.get(&Key::Int(1)) == Some(&Value::Int(30)));
    assert!(table.get_name(&"k".to_string()) == Some(&Value::Int(20)));
    assert!(table.get(&Key::Symbol(1)).is_none());
    assert!(table.get(&Key::Bool(true)).is_none());
}

#[test]
fn taking_a_name_removes_it() {
    let mut table = Table::new();
    table.insert_name("a".to_string(), Value::Int(1));
    table.insert_name("b".to_string(), Value::Int(2));
    assert!(table.take_name(&"a".to_string()) == Some(Value::Int(1)));
    assert!(table.take_name(&"a".to_string()).is_none());
    assert!(table.get_name(&"b".to_string()) == Some(&Value::Int(2)));
    assert_eq!(table.len(), 1);
}

#[test]
fn keys_of_different_kinds_differ() {
    assert!(Key::Int(1).same(&Key::Int(1)));
    assert!(!Key::Int(1).same(&Key::Symbol(1)));
    assert!(!Key::Null.same(&Key::Bool(false)));
    assert!(Key::Str("a".to_string()).same(&Key::Str("a".to_string())));
    assert!(!Key::Str("a".to_string()).same(&Key::Str("b".to_string())));
    assert!(Key::Str("a".to_string()).is_name(&"a".to_string()));
    assert!(!Key::Int(0).is_name(&"0".to_string()));
}

#[test]
fn a_clone_is_a_handle_on_the_same_list() {
    let xs = list(vec![Value::Int(1)]);
    let ys = xs.try_clone().unwrap();
    assert!(xs == ys);
    match (&xs, &ys) {
        (Value::List(a), Value::List(b)) => {
            assert!(Rc::ptr_eq(a, b));
            assert_eq!(Rc::strong_count(a), 2);
        }
        _ => unreachable!(),
    }
}

#[test]
fn unwrapping_gives_the_payload() {
    assert_eq!(Value::Int(-9).unwrap_int(), -9);
    assert_eq!(Value::Symbol(12).unwrap_symbol(), 12);
    let o = object(vec![("a", Value::Null)]);
    assert_eq!(o.unwrap_object().len(), 1);
}

#[test]
fn negative_indices_count_from_the_end() {
    assert_eq!(wrap_list_index(5, 0), Some(0));
    assert_eq!(wrap_list_index(5, 4), Some(4));
    assert_eq!(wrap_list_index(5, 5), None);
    assert_eq!(wrap_list_index(5, -1), Some(4));
    assert_eq!(wrap_list_index(5, -5), Some(0));
    assert_eq!(wrap_list_index(5, -6), None);
    assert_eq!(wrap_list_index(0, 0), None);
    assert_eq!(wrap_list_index(0, -1), None);
    assert_eq!(wrap_list_index(3, i64::MIN), None);
    assert_eq!(wrap_list_index(3, i64::MAX), None);
}

#[test]
fn symbols_come_in_order() {
    let mut g = SymbolGenerator::new();
    assert!(g.gen() == Ok(Value::Symbol(0)));
    assert!(g.gen() == Ok(Value::Symbol(1)));
    assert!(g.gen() == Ok(Value::Symbol(2)));
}

#[test]
fn the_generator_stops_below_the_reserved_symbols() {
    let mut g = SymbolGenerator { counter: ERROR_CODE_FLOOR - 1 };
    assert!(g.gen() == Ok(Value::Symbol(ERROR_CODE_FLOOR - 1)));
    assert_eq!(g.gen().err(), Some(Fatal::SymbolsExhausted));
    assert_eq!(g.counter, ERROR_CODE_FLOOR);
}

#[test]
fn reserved_symbols_sit_at_the_top() {
    assert_eq!(ERROR, u64::MAX);
    assert_eq!(ERROR_CODE_START, u64::MAX - 10000);
    assert_eq!(TYPE_ERROR_INT, ERROR_CODE_START - 1);
    assert_eq!(ERROR_LOOP, ERROR_CODE_START - 2);
    assert_eq!(INT_MIN_NEGATION, ERROR_CODE_START - 3);
    assert_eq!(TYPE_ERROR_OBJECT, ERROR_CODE_START - 4);
    assert!(ERROR_CODE_FLOOR < TYPE_ERROR_OBJECT);
}

#[test]
fn only_an_effect_has_one_owner_by_kind() {
    assert!(!Value::Null.is_mut());
    assert!(!Value::Int(1).is_mut());
    assert!(!list(vec![]).is_mut());
    assert!(!object(vec![]).is_mut());
}

#[test]
fn a_new_scope_is_empty() {
    let scope = Rc::new(kal::value::Scope::new());
    assert!(scope.parent.is_none());
    assert_eq!(scope.bindings.len(), 0);
    assert!(kal::value::Scope::resolve_binding(&scope, &"x".to_string()).is_none());
}
