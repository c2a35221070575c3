use lox::host::Number;
use lox::tree_walking::environment::Environment;
use lox::tree_walking::value::Value;

fn bits(value: Option<Value>) -> Option<u64> {
    match value {
        Some(Value::Number(number)) => Some(number.bits),
        _ => None,
    }
}

#[test]
fn environment_test_define() {
    let mut environment = Environment::new();
    let frame = environment.open(None);
    environment.define(frame, "a", Value::Number(Number { bits: 7 }));
    assert_eq!(bits(environment.get(frame, "a", 0)), Some(7));
    environment.define(frame, "a", Value::Number(Number { bits: 8 }));
    assert_eq!(bits(environment.get(frame, "a", 0)), Some(8));
    assert_eq!(bits(environment.get(frame, "b", 0)), None);
}

#[test]
fn get_walks_up_the_parents() {
    let mut environment = Environment::new();
    let outer = environment.open(None);
    let inner = environment.open(Some(outer));
    environment.define(outer, "a", Value::Number(Number { bits: 1 }));
    assert_eq!(bits(environment.get(inner, "a", 1)), Some(1));
    assert_eq!(bits(environment.get(inner, "a", 0)), None);
    assert_eq!(bits(environment.get(inner, "a", 2)), None);
    assert_eq!(environment.execute_at(inner, 1), Some(outer));
    assert_eq!(environment.execute_at(inner, 2), None);
}

#[test]
fn assign_writes_at_the_distance() {
    let mut environment = Environment::new();
    let outer = environment.open(None);
    let inner = environment.open(Some(outer));
    let assigned = environment.assign(inner, "a", Value::Number(Number { bits: 3 }), 1);
    assert_eq!(bits(assigned), Some(3));
    assert_eq!(bits(environment.get(outer, "a", 0)), Some(3));
    assert_eq!(bits(environment.get(inner, "a", 0)), None);
    let missing = environment.assign(inner, "a", Value::Number(Number { bits: 4 }), 5);
    assert_eq!(bits(missing), None);
    assert_eq!(bits(environment.get(outer, "a", 0)), Some(3));
}
