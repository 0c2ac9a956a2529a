use lumen_core::{Environment, Value};

fn num(x: f64) -> Value {
    Value::Number(x.to_bits())
}

#[test]
fn define_and_get() {
    let mut env = Environment::new();
    env.define(0, "x".to_string(), num(1.0));
    assert_eq!(env.get(0, "x"), Some(num(1.0)));
    assert_eq!(env.get(0, "y"), None);
}

#[test]
fn child_sees_parent_binding() {
    let mut env = Environment::new();
    let parent = 0;
    env.define(parent, "x".to_string(), num(1.0));
    let child = env.with_parent(parent);
    assert_eq!(env.get(child, "x"), Some(num(1.0)));
}

#[test]
fn assign_walks_to_parent() {
    let mut env = Environment::new();
    let parent = 0;
    env.define(parent, "x".to_string(), num(1.0));
    let child = env.with_parent(parent);
    assert!(env.assign(child, "x", num(9.0)));
    assert_eq!(env.get(parent, "x"), Some(num(9.0)));
}

#[test]
fn assign_unknown_returns_false() {
    let mut env = Environment::new();
    assert!(!env.assign(0, "nope", Value::Nil));
}

#[test]
fn child_shadows_parent() {
    let mut env = Environment::new();
    let parent = 0;
    env.define(parent, "x".to_string(), num(1.0));
    let child = env.with_parent(parent);
    env.define(child, "x".to_string(), num(2.0));
    assert_eq!(env.get(child, "x"), Some(num(2.0)));
    assert_eq!(env.get(parent, "x"), Some(num(1.0)));
}

#[test]
fn redefinition_replaces_binding() {
    let mut env = Environment::new();
    env.define(0, "x".to_string(), num(1.0));
    env.define(0, "x".to_string(), Value::Str("s".to_string()));
    assert_eq!(env.get(0, "x"), Some(Value::Str("s".to_string())));
    assert_eq!(env.len(), 1);
}

#[test]
fn siblings_do_not_see_each_other() {
    let mut env = Environment::new();
    let a = env.with_parent(0);
    let b = env.with_parent(0);
    env.define(a, "x".to_string(), Value::Bool(true));
    assert_eq!(env.get(b, "x"), None);
    assert_eq!(env.get(a, "x"), Some(Value::Bool(true)));
    assert!(!env.assign(b, "x", Value::Nil));
    assert_eq!(env.len(), 3);
}

#[test]
fn value_equality_rules() {
    assert_eq!(num(0.0), num(-0.0));
    assert_ne!(num(f64::NAN), num(f64::NAN));
    assert_ne!(num(1.0), Value::Str("1".to_string()));
    assert_eq!(Value::Function(3), Value::Function(3));
    assert_ne!(Value::Function(3), Value::Function(4));
    assert_eq!(Value::Nil, Value::Nil);
    assert_ne!(Value::Bool(true), Value::Bool(false));
}

#[test]
fn value_equality_is_symmetric() {
    let values = vec![
        num(1.0),
        num(-0.0),
        num(0.0),
        num(f64::NAN),
        Value::Str("a".to_string()),
        Value::Bool(true),
        Value::Nil,
        Value::Function(0),
    ];
    for a in &values {
        for b in &values {
            assert_eq!(a == b, b == a);
        }
    }
}
