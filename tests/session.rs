use cortev::{JsonValue, Session, SessionData, SessionKey, SessionState};

fn sample() -> Session {
    let mut data = SessionData::new();
    data.insert("name".to_string(), JsonValue::String("John".to_string()));
    data.insert("age".to_string(), JsonValue::Number(20));
    data.insert("is_student".to_string(), JsonValue::Bool(true));
    data.insert("is_teacher".to_string(), JsonValue::Bool(false));

    Session::builder(SessionKey::new("key")).with_data(data).build()
}

#[test]
fn lib_test_only_session() {
    let session = sample();
    let keys = ["name", "age"];

    let value = session.only(&keys);
    let name = value.get_str("name").unwrap();
    let age = value.get::<i32>("age").unwrap();
    let teacher = value.get::<bool>("is_teacher");

    assert_eq!(name, "John");
    assert_eq!(age, 20);
    assert!(teacher.is_none());
}

#[test]
fn lib_test_except_session() {
    let session = sample();
    let keys = ["name", "age"];

    let value = session.except(&keys);
    let student = value.get::<bool>("is_student").unwrap();
    let teacher = value.get::<bool>("is_teacher").unwrap();
    let name = value.get_str("name");

    assert!(name.is_none());
    assert!(student);
    assert!(!teacher);
}

#[test]
fn lib_test_session_all() {
    let session = sample();

    let all = session.all();
    assert_eq!(all.len(), 4);

    let name = all.get("name").unwrap();
    assert_eq!(name, &JsonValue::String("John".into()));
}

#[test]
fn test_subsession_all() {
    let session = sample();

    let keys = ["name", "age"];
    let value = session.only(&keys);

    let session = value.into_session();
    let all = session.all();
    assert_eq!(all.len(), 2);

    let value = all.get("name").unwrap();
    let name = session.get_str("name").unwrap();

    let state = session.state();

    assert_eq!(value, &JsonValue::String("John".into()));
    assert_eq!(name, "John");
    assert_eq!(state, SessionState::Changed);
}

#[test]
fn test_subset() {
    let session = sample();

    let keys = ["name", "age"];
    let value = session.only(&keys);

    let session = value.into_session();
    let all = session.all();
    assert_eq!(all.len(), 2);

    let value = all.get("name").unwrap();
    let name = session.get_str("name").unwrap();

    let state = session.state();

    assert_eq!(value, &JsonValue::String("John".into()));
    assert_eq!(name, "John");
    assert_eq!(state, SessionState::Changed);
}

#[test]
fn lib_test_session_get() {
    let session = sample();

    let name = session.get::<String>("name").unwrap();
    let age = session.get::<i32>("age").unwrap();
    let is_student = session.get::<bool>("is_student").unwrap();
    let is_teacher = session.get::<bool>("is_teacher").unwrap();

    assert_eq!(name, "John");
    assert_eq!(age, 20);
    assert!(is_student);
    assert!(!is_teacher);
}

#[test]
fn mutators_move_the_state() {
    let s = sample();
    assert_eq!(s.state(), SessionState::Unchanged);
    assert_eq!(s.key(), "key");
    let s = s.insert("x", JsonValue::Null);
    assert_eq!(s.state(), SessionState::Changed);
    assert!(s.has("x"));
    let s = s.regenerate();
    assert_eq!(s.state(), SessionState::Regenerated);
    let s = s.remove("x");
    assert_eq!(s.state(), SessionState::Regenerated);
    assert!(!s.has("x"));
    let s = s.invalidate();
    assert_eq!(s.state(), SessionState::Invalidated);
    assert_eq!(s.all().len(), 0);
    let s = s.insert("y", JsonValue::Bool(true));
    assert_eq!(s.state(), SessionState::Invalidated);
}

#[test]
fn counters_start_at_zero_and_wrap() {
    let s = sample();
    let s = s.increment("visits");
    assert_eq!(s.get::<i32>("visits"), Some(1));
    let s = s.increment_by("visits", 41);
    assert_eq!(s.get::<i32>("visits"), Some(42));
    let s = s.decrement("visits").decrement_by("visits", 10);
    assert_eq!(s.get::<i32>("visits"), Some(31));
    let s = s.increment("name");
    assert_eq!(s.get::<i32>("name"), Some(1));
    let s = s.insert("big", JsonValue::Number(i32::MAX as i64)).increment("big");
    assert_eq!(s.get::<i32>("big"), Some(i32::MIN));
    let s = s.insert("huge", JsonValue::Number(1 << 40)).increment("huge");
    assert_eq!(s.get::<i32>("huge"), Some(1));
    assert_eq!(s.state(), SessionState::Changed);
}

#[test]
fn pull_forget_flush() {
    let s = sample();
    let (s, taken) = s.pull("age");
    assert_eq!(taken, Some(JsonValue::Number(20)));
    assert!(!s.has("age"));
    let (s, none) = s.pull("age");
    assert_eq!(none, None);
    let s = s.forget(&["name", "is_student", "missing"]);
    assert_eq!(s.all().len(), 1);
    assert!(s.has("is_teacher"));
    assert_eq!(s.state(), SessionState::Changed);
    let s = s.flush();
    assert_eq!(s.all().len(), 0);
}

#[test]
fn typed_reads() {
    let s = sample();
    assert_eq!(s.get::<i64>("age"), Some(20));
    assert_eq!(s.get::<u64>("age"), Some(20));
    assert_eq!(s.get::<String>("age"), None);
    assert_eq!(s.get::<i32>("missing"), None);
    assert_eq!(s.try_get::<i32>("age"), Ok(20));
    assert!(s.try_get::<i32>("missing").is_err());
    assert!(s.try_get::<bool>("name").is_err());
    assert_eq!(s.get_or_default::<i32>("missing"), 0);
    assert_eq!(s.get_or_default::<String>("name"), "John");
    assert_eq!(s.get_ref("age"), Some(&JsonValue::Number(20)));
    assert_eq!(s.get_str("age"), None);
    let s = s.insert("neg", JsonValue::Number(-5));
    assert_eq!(s.get::<u64>("neg"), None);
}

#[test]
fn tokens() {
    let s = sample();
    assert_eq!(s.token(), None);
    let s = s.regenerate_token();
    let t = s.token().unwrap().to_string();
    assert_eq!(t.len(), 40);
    assert!(t.chars().all(|c| c.is_ascii_alphanumeric()));
    assert_eq!(s.state(), SessionState::Changed);
    assert_eq!(s.all().len(), 5);
    let s = s.regenerate_token();
    assert_ne!(s.token().unwrap(), t);

    let fresh = SessionData::session();
    assert_eq!(fresh.len(), 1);
    match fresh.get("_token") {
        Some(JsonValue::String(t)) => assert_eq!(t.len(), 40),
        other => panic!("unexpected token {:?}", other),
    }
}

#[test]
fn key_display() {
    let short = SessionKey::new("abc");
    assert_eq!(short.to_string(), "abc");
    let long = SessionKey::new("0123456789abcdefghijklmnopqrstuvwxyz");
    assert_eq!(long.to_string(), "01234567...stuvwxyz");
    assert_eq!(long.as_str().len(), 36);
    assert!(long.same_as(&long.duplicate()));
    assert!(!long.same_as(&short));
    let exact = SessionKey::from_string("x".repeat(24));
    assert_eq!(exact.to_string(), "x".repeat(24));
}

fn nested() -> JsonValue {
    JsonValue::Object(vec![
        ("roles".to_string(), JsonValue::Array(vec![JsonValue::String("admin".into()), JsonValue::Null])),
        ("profile".to_string(), JsonValue::Object(vec![("age".to_string(), JsonValue::Number(3))])),
    ])
}

#[test]
fn arrays_and_objects_are_stored_and_copied() {
    let s = sample().insert("user", nested()).insert("tags", JsonValue::Array(vec![JsonValue::Bool(true)]));
    assert_eq!(s.get_ref("user"), Some(&nested()));
    assert_eq!(s.get::<i32>("user"), None);
    assert_eq!(s.get_str("tags"), None);

    let copy = nested().duplicate();
    assert_eq!(copy, nested());
    assert_eq!(nested().clone(), nested());

    let keys = ["user", "tags"];
    let sub = s.only(&keys).into_session();
    assert_eq!(sub.all().len(), 2);
    assert_eq!(sub.get_ref("user"), Some(&nested()));
    assert_eq!(sub.get_ref("tags"), Some(&JsonValue::Array(vec![JsonValue::Bool(true)])));

    let data = s.all().duplicate();
    assert_eq!(data.len(), 6);
    assert_eq!(data.get("user"), Some(&nested()));
}
