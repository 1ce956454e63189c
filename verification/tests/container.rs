use sessions::{Data, Value};

#[test]
fn set_then_get_round_trip() {
    let mut d = Data::new();
    assert_eq!(d.insert("k", Value::Int(41)), None);
    assert_eq!(d.get("k"), Some(&Value::Int(41)));
    let nested = Value::Arr(vec![Value::Null, Value::Bool(true), Value::Str("x".to_string())]);
    assert_eq!(d.insert("deep", nested), None);
    assert_eq!(
        d.get("deep"),
        Some(&Value::Arr(vec![Value::Null, Value::Bool(true), Value::Str("x".to_string())]))
    );
}

#[test]
fn set_twice_reports_previous() {
    let mut d = Data::new();
    assert_eq!(d.insert("k", Value::Int(1)), None);
    assert_eq!(d.insert("k", Value::Int(2)), Some(Value::Int(1)));
    assert_eq!(d.get("k"), Some(&Value::Int(2)));
    assert_eq!(d.len(), 1);
}

#[test]
fn remove_returns_last_set_or_none() {
    let mut d = Data::new();
    assert_eq!(d.remove("never"), None);
    d.insert("k", Value::Int(1));
    d.insert("k", Value::Int(2));
    assert_eq!(d.remove("k"), Some(Value::Int(2)));
    assert_eq!(d.get("k"), None);
    assert_eq!(d.remove("k"), None);
}

#[test]
fn clear_empties_whatever_was_held() {
    let mut d = Data::new();
    d.insert("a", Value::Int(1));
    d.insert("b", Value::Bool(false));
    d.insert("c", Value::Str("s".to_string()));
    assert_eq!(d.len(), 3);
    d.clear();
    assert!(d.is_empty());
    assert_eq!(d.len(), 0);
    assert_eq!(d.get("a"), None);

    let mut empty = Data::new();
    empty.clear();
    assert!(empty.is_empty());
}

#[test]
fn empty_key_is_a_key() {
    let mut d = Data::new();
    assert_eq!(d.insert("", Value::Int(9)), None);
    assert!(d.contains_key(""));
    assert_eq!(d.remove(""), Some(Value::Int(9)));
    assert!(!d.contains_key(""));
}

#[test]
fn duplicate_models_the_same_map() {
    let mut d = Data::new();
    d.insert("a", Value::Int(1));
    d.insert(
        "b",
        Value::Obj(vec![("inner".to_string(), Value::Arr(vec![Value::Int(2), Value::Int(3)]))]),
    );
    let copy = d.duplicate();
    assert_eq!(copy.get("a"), Some(&Value::Int(1)));
    assert_eq!(
        copy.get("b"),
        Some(&Value::Obj(vec![(
            "inner".to_string(),
            Value::Arr(vec![Value::Int(2), Value::Int(3)])
        )]))
    );
    assert_eq!(copy.len(), 2);
}

#[test]
fn typed_reads_fail_as_absence() {
    let v = Value::Str("not a number".to_string());
    assert_eq!(v.as_i64(), None);
    assert_eq!(v.as_bool(), None);
    assert_eq!(v.as_str(), Some("not a number"));

    let n = Value::Int(233);
    assert_eq!(n.as_i64(), Some(233));
    assert_eq!(n.as_bool(), None);
    assert_eq!(n.as_str(), None);

    let b = Value::Bool(true);
    assert_eq!(b.as_bool(), Some(true));
    assert_eq!(b.as_i64(), None);
}
