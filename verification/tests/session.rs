use sessions::{CookieOptions, MemoryStore, Session, Status, Value};

fn user(age: i64, name: &str) -> Value {
    Value::Obj(vec![
        ("age".to_string(), Value::Int(age)),
        ("name".to_string(), Value::Str(name.to_string())),
    ])
}

#[test]
fn session() {
    let mut store = MemoryStore::new();

    for i in 0..10i64 {
        let name = format!("trek-{}", i);
        let mut session = Session::new(&name, Status::Created, CookieOptions::new());

        assert_eq!(session.id(), name);

        assert_eq!(session.set("counter", Value::Int(i)), None);
        assert_eq!(session.set("number", Value::Int(233)), None);
        assert_eq!(session.get("counter"), Some(Value::Int(i)));
        assert_eq!(session.get("number"), Some(Value::Int(233)));

        assert_eq!(session.set("user", user(23, "Jordan")), None);
        assert_eq!(session.set("user", user(37, "Kobe")), Some(user(23, "Jordan")));
        assert_eq!(session.get("user"), Some(user(37, "Kobe")));

        assert_eq!(session.remove("number"), Some(Value::Int(233)));
        assert_eq!(session.remove("counter"), Some(Value::Int(i)));
        assert_eq!(session.get("counter"), None);
        assert_eq!(session.remove("counter"), None);

        assert!(session.data().contains_key("user"));
        assert_eq!(session.data().len(), 1);

        assert_eq!(session.clear(), Ok(()));
        assert!(session.data().is_empty());

        let state = session.data_mut();
        state.insert("counter", Value::Int(i));
        state.insert("number", Value::Int(233));
        state.insert("user", user(37, "Kobe"));
        assert_eq!(session.data().len(), 3);

        assert_eq!(session.save(&mut store), Ok(()));
        assert!(store.contains_id(&name));
        let stored = store.state_of(&name).unwrap();
        assert_eq!(stored.get("number"), Some(&Value::Int(233)));
        assert_eq!(stored.get("user"), Some(&user(37, "Kobe")));
    }
}
