use sessions::{CookieOptions, MemoryStore, Session, SessionError, Status, Storage, Value};

#[test]
fn scenario_counter_previous_values() {
    let mut session = Session::new("trek-1", Status::Created, CookieOptions::new());
    assert_eq!(session.set("counter", Value::Int(5)), None);
    assert_eq!(session.set("counter", Value::Int(6)), Some(Value::Int(5)));
    assert_eq!(session.get("counter").unwrap().as_i64(), Some(6));
    assert_eq!(session.remove("counter").unwrap().as_i64(), Some(6));
    assert_eq!(session.get("counter"), None);
}

#[test]
fn save_fresh_persists_empty_with_default_max_age() {
    let mut store = MemoryStore::new();
    let mut session = Session::new("fresh-1", Status::Created, CookieOptions::new());
    assert_eq!(session.max_age(), 86400);
    assert_eq!(session.save(&mut store), Ok(()));
    assert_eq!(session.status(), Status::Saved);
    let state = store.state_of("fresh-1").unwrap();
    assert!(state.is_empty());
    assert_eq!(store.ttl_of("fresh-1"), Some(86400));
}

#[test]
fn second_save_skips_backend() {
    let mut store = MemoryStore::new();
    let mut session = Session::new("dup-1", Status::Created, CookieOptions::new());
    session.set("k", Value::Int(1));
    assert_eq!(session.save(&mut store), Ok(()));
    assert_eq!(session.status(), Status::Saved);

    // The session mutates after the first save; the second save must not
    // reach the backend, so the stored state stays what the first wrote.
    session.set("k", Value::Int(2));
    assert_eq!(session.save(&mut store), Ok(()));
    assert_eq!(session.status(), Status::Saved);
    let stored = store.state_of("dup-1").unwrap();
    assert_eq!(stored.get("k"), Some(&Value::Int(1)));
    assert_eq!(store.count(), 1);
}

#[test]
fn renew_assigns_fresh_id_and_is_idempotent() {
    let mut store = MemoryStore::new();
    let mut session = store.load("", CookieOptions::new());
    assert_eq!(session.status(), Status::Created);
    let old_id = session.id();
    session.set("k", Value::Int(7));
    assert_eq!(session.save(&mut store), Ok(()));
    assert!(store.contains_id(&old_id));

    assert_eq!(session.renew(&mut store), Ok(()));
    let new_id = session.id();
    assert_ne!(new_id, old_id);
    assert_eq!(session.status(), Status::Renewed);
    assert!(session.data().is_empty());
    assert!(!store.contains_id(&old_id));

    assert_eq!(session.renew(&mut store), Ok(()));
    assert_eq!(session.id(), new_id);
    assert_eq!(session.status(), Status::Renewed);
}

#[test]
fn destroy_is_sticky() {
    let mut store = MemoryStore::new();
    let mut session = Session::new("gone-1", Status::Created, CookieOptions::new());
    session.set("k", Value::Int(1));
    assert_eq!(session.save(&mut store), Ok(()));
    assert!(store.contains_id("gone-1"));

    assert_eq!(session.destroy(&mut store), Ok(()));
    assert_eq!(session.status(), Status::Destroyed);
    assert!(!store.contains_id("gone-1"));

    // Destroyed is terminal: neither destroy nor renew acts again.
    assert_eq!(session.destroy(&mut store), Ok(()));
    assert_eq!(session.renew(&mut store), Ok(()));
    assert_eq!(session.status(), Status::Destroyed);
    assert_eq!(session.id(), "gone-1");
    assert_eq!(store.count(), 0);
}

#[test]
fn load_roundtrip_and_miss() {
    let mut store = MemoryStore::new();
    let mut first = Session::new("alpha", Status::Created, CookieOptions::new());
    first.set("name", Value::Str("Kobe".to_string()));
    assert_eq!(first.save(&mut store), Ok(()));

    let hit = store.load("alpha", CookieOptions::new());
    assert_eq!(hit.status(), Status::Saved);
    assert_eq!(hit.id(), "alpha");
    assert!(!hit.fresh());
    assert_eq!(hit.get("name"), Some(Value::Str("Kobe".to_string())));

    let miss = store.load("missing", CookieOptions::new());
    assert_eq!(miss.status(), Status::Created);
    assert!(miss.fresh());
    assert!(miss.data().is_empty());
    assert_ne!(miss.id(), "missing");
    assert!(!miss.id().is_empty());
}

#[test]
fn generated_ids_are_distinct() {
    let mut store = MemoryStore::new();
    let a = store.load("", CookieOptions::new());
    let b = store.load("", CookieOptions::new());
    let c = store.load("", CookieOptions::new());
    assert_ne!(a.id(), b.id());
    assert_ne!(a.id(), c.id());
    assert_ne!(b.id(), c.id());
}

#[test]
fn dirty_flag_tracks_mutations() {
    let mut session = Session::new("flag-1", Status::Created, CookieOptions::new());
    assert!(!session.data_status());
    session.set("k", Value::Int(1));
    assert!(session.data_status());

    let mut other = Session::new("flag-2", Status::Created, CookieOptions::new());
    // Removing an absent key removes nothing and leaves the flag clean.
    assert_eq!(other.remove("k"), None);
    assert!(!other.data_status());
    assert_eq!(other.clear(), Ok(()));
    assert!(other.data_status());
}

#[test]
fn save_error_values_compare() {
    assert_ne!(SessionError::Lock, SessionError::Storage);
    assert_eq!(SessionError::Storage, SessionError::Storage);
}
