use std::collections::HashMap;

use bsh::builtins::env::{declare_plan, unset_plan};

fn strings(v: &[&str]) -> Vec<String> {
    v.iter().map(|s| s.to_string()).collect()
}

/// Applies what `declare args` plans to `vars`; whether it succeeded.
fn declare(vars: &mut HashMap<String, String>, args: &[&str]) -> bool {
    let plan = declare_plan(&strings(args));
    for (key, value) in plan.changes {
        vars.insert(key, value);
    }
    plan.result.is_ok()
}

/// Applies what `unset args` plans to `vars`; whether it succeeded.
fn unset(vars: &mut HashMap<String, String>, args: &[&str]) -> bool {
    let plan = unset_plan(&strings(args));
    for key in plan.changes {
        vars.remove(&key);
    }
    plan.result.is_ok()
}

#[test]
fn declare_invalid_identifier() {
    let mut vars = HashMap::new();
    assert!(!declare(&mut vars, &[""]));
    assert!(!declare(&mut vars, &["=FOO"]));

    let key = "KEY_DECLARE_INVALID";
    let value = "bar";
    assert!(!declare(&mut vars, &["=baz", &format!("{}={}", key, value), "=baz"]));
    assert_eq!(vars.get(key).map(String::as_str), Some(value));
}

#[test]
fn declare_assignment() {
    let mut vars = HashMap::new();
    let key = "KEY_DECLARE_ASSIGNMENT";
    assert!(declare(&mut vars, &[key]));
    assert_eq!(vars.get(key).map(String::as_str), Some(""));

    let value1 = "bar";
    assert!(declare(&mut vars, &[&format!("{}={}", key, value1)]));
    assert_eq!(vars.get(key).map(String::as_str), Some(value1));

    let value2 = "baz";
    assert!(declare(&mut vars, &[&format!("{}={}", key, value2)]));
    assert_eq!(vars.get(key).map(String::as_str), Some(value2));
}

#[test]
fn declare_multiple_assignments() {
    let mut vars = HashMap::new();
    let key1 = "KEY_DECLARE_MULTIPLE_1";
    let key2 = "KEY_DECLARE_MULTIPLE_2";
    let value = "baz";
    assert!(declare(
        &mut vars,
        &[&format!("{}={}", key1, value), &format!("{}={}", key2, value)]
    ));
    assert_eq!(vars.get(key1).map(String::as_str), Some(value));
    assert_eq!(vars.get(key2).map(String::as_str), Some(value));
}

#[test]
fn unset_invalid_identifier() {
    let mut vars = HashMap::new();
    let key = "KEY_UNSET_INVALID";
    assert!(declare(&mut vars, &[key]));
    assert!(!unset(&mut vars, &["", key, "=FOO"]));
    assert!(vars.get(key).is_none());
}

#[test]
fn unset_multiple_assignments() {
    let mut vars = HashMap::new();
    let key1 = "KEY_UNSET_MULTIPLE_1";
    let key2 = "KEY_UNSET_MULTIPLE_2";
    assert!(declare(&mut vars, &[key1, key2]));
    assert!(unset(&mut vars, &[key1, key2]));
    assert!(vars.get(key1).is_none());
    assert!(vars.get(key2).is_none());
}
