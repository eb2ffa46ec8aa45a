use cortev::error::CommandFailure;
use cortev::flow::{incoming_key, persistence_action, session_set_cookie};
use cortev::redis::{QueryOutcome, RedisKeyspace, RedisOp, RetryState, RetryStep};
use cortev::{
    JsonValue, MemoryDriver, NullDriver, PersistAction, SessionData, SessionError, SessionErrorKind,
    SessionKey, SessionKind, SessionState,
};

fn data_with(key: &str, value: JsonValue) -> SessionData {
    let mut d = SessionData::new();
    d.insert(key.to_string(), value);
    d
}

#[test]
fn memory_write_read_destroy() {
    let mut driver = MemoryDriver::new();
    assert_eq!(driver.ttl(), 7200);
    let key = SessionKey::new("k1");
    assert!(driver.read(&key).unwrap().is_none());
    let back = driver.write(key.clone(), data_with("a", JsonValue::Number(1))).unwrap();
    assert_eq!(back.as_str(), "k1");
    let s = driver.read(&key).unwrap().unwrap();
    assert_eq!(s.key(), "k1");
    assert_eq!(s.state(), SessionState::Unchanged);
    assert_eq!(s.get::<i32>("a"), Some(1));
    driver.write(key.clone(), data_with("b", JsonValue::Bool(true))).unwrap();
    let s = driver.read(&key).unwrap().unwrap();
    assert!(!s.has("a"));
    assert!(s.has("b"));
}

#[test]
fn destroy_twice_succeeds() {
    let mut driver = MemoryDriver::new();
    let key = SessionKey::new("gone");
    driver.write(key.clone(), SessionData::new()).unwrap();
    assert!(driver.destroy(&key).is_ok());
    assert!(driver.destroy(&key).is_ok());
    assert!(driver.read(&key).unwrap().is_none());
}

#[test]
fn regenerate_moves_the_data() {
    let mut driver = MemoryDriver::with_ttl(60);
    assert_eq!(driver.ttl(), 60);
    let old = driver.create(data_with("user_id", JsonValue::Number(7))).unwrap();
    assert_eq!(old.as_str().len(), 64);
    let new = driver.regenerate(&old, data_with("user_id", JsonValue::Number(7))).unwrap();
    assert_ne!(new.as_str(), old.as_str());
    assert!(driver.read(&old).unwrap().is_none());
    let s = driver.read(&new).unwrap().unwrap();
    assert_eq!(s.get::<i32>("user_id"), Some(7));
}

#[test]
fn invalidate_moves_to_a_fresh_key() {
    let mut driver = MemoryDriver::new();
    let old = driver.init().unwrap();
    let new = driver.invalidate(&old, SessionData::new()).unwrap();
    assert_ne!(new.as_str(), old.as_str());
    assert!(driver.read(&old).unwrap().is_none());
    assert_eq!(driver.read(&new).unwrap().unwrap().all().len(), 0);
}

#[test]
fn null_driver_stores_nothing() {
    let driver = NullDriver::new();
    let key = SessionKey::new("anything");
    let s = driver.read(&key).unwrap().unwrap();
    assert_eq!(s.key(), "anything");
    assert_eq!(s.all().len(), 0);
    assert_eq!(driver.write(key.clone(), data_with("a", JsonValue::Null)).unwrap().as_str(), "anything");
    assert!(driver.destroy(&key).is_ok());
    assert!(driver.destroy(&key).is_ok());
    assert_eq!(driver.ttl(), 0);
    assert_eq!(driver.init().unwrap().as_str().len(), 64);
    assert_eq!(driver.regenerate(&key, SessionData::new()).unwrap().as_str().len(), 64);
    assert_eq!(driver.invalidate(&key, SessionData::new()).unwrap().as_str().len(), 64);
}

#[test]
fn persistence_actions() {
    assert_eq!(persistence_action(SessionState::Unchanged), PersistAction::Keep);
    assert_eq!(persistence_action(SessionState::Changed), PersistAction::Write);
    assert_eq!(persistence_action(SessionState::Regenerated), PersistAction::Regenerate);
    assert_eq!(persistence_action(SessionState::Invalidated), PersistAction::Invalidate);
}

#[test]
fn end_to_end_login_flow() {
    let mut driver = MemoryDriver::new();
    let kind = SessionKind::default_cookie();

    // First request: no cookie at all.
    let first_headers: Vec<String> = vec![];
    let incoming = incoming_key(&first_headers, &kind);
    assert!(incoming.is_none());
    let session = driver.start_session(incoming).unwrap();
    assert_eq!(session.all().len(), 1);
    assert_eq!(session.token().unwrap().len(), 40);
    let first_key = session.key().to_string();

    // The handler logs the user in.
    let session = session.insert("user_id", JsonValue::Number(1)).regenerate();
    assert_eq!(session.state(), SessionState::Regenerated);
    let new_key = driver.finish_session(session).unwrap();
    assert_ne!(new_key.as_str(), first_key);
    assert!(driver.read(&SessionKey::new(&first_key)).unwrap().is_none());

    // Second request presents the new cookie.
    let second_headers = vec![format!("theme=dark; id={}", new_key.as_str())];
    let incoming = incoming_key(&second_headers, &kind).unwrap();
    assert_eq!(incoming.as_str(), new_key.as_str());
    let session = driver.start_session(Some(incoming)).unwrap();
    assert_eq!(session.get::<i32>("user_id"), Some(1));
    assert_eq!(session.state(), SessionState::Unchanged);
    let kept = driver.finish_session(session).unwrap();
    assert_eq!(kept.as_str(), new_key.as_str());
}

#[test]
fn unknown_cookie_starts_a_fresh_session() {
    let mut driver = MemoryDriver::new();
    let session = driver.start_session(Some(SessionKey::new("stale"))).unwrap();
    assert_ne!(session.key(), "stale");
    assert_eq!(session.all().len(), 1);
    assert!(driver.read(&SessionKey::new(session.key())).unwrap().is_some());
    let key = SessionKey::new(session.key());
    let changed = session.increment("n");
    assert_eq!(driver.finish_session(changed).unwrap().as_str(), key.as_str());
    assert_eq!(driver.read(&key).unwrap().unwrap().get::<i32>("n"), Some(1));
}

#[test]
fn redis_commands_use_the_prefix() {
    let space = RedisKeyspace::new(cortev::redis::REDIS_DEFAULT_TTL_SECS).with_prefix("app:");
    assert_eq!(space.prefixed_key("abc"), "app:abc");
    assert_eq!(space.ttl(), 432000);
    let plain = RedisKeyspace::new(10);
    assert_eq!(plain.prefixed_key("abc"), "abc");
    let key = SessionKey::new("k");
    assert_eq!(space.read_command(&key), RedisOp::GetEx { key: "app:k".into(), ttl: 432000 });
    assert_eq!(space.destroy_command(&key), RedisOp::Del { key: "app:k".into() });
    let space = space.with_ttl(30);
    assert_eq!(
        space.write_command(&key, "{}".to_string()),
        RedisOp::SetEx { key: "app:k".into(), value: "{}".into(), ttl: 30 }
    );
    let new = SessionKey::new("n");
    assert_eq!(
        space.regenerate_batch(&key, &new, "{}".to_string()),
        vec![
            RedisOp::SetEx { key: "app:n".into(), value: "{}".into(), ttl: 30 },
            RedisOp::Del { key: "app:k".into() },
        ]
    );
    assert_eq!(
        space.invalidate_batch(&key, &new, "{}".to_string()),
        vec![
            RedisOp::Del { key: "app:k".into() },
            RedisOp::SetEx { key: "app:n".into(), value: "{}".into(), ttl: 30 },
        ]
    );
}

#[test]
fn one_dropped_connection_is_retried_once() {
    let mut state = RetryState::new();
    assert_eq!(state.step(QueryOutcome::Failure(CommandFailure::ConnectionDropped)), RetryStep::Retry);
    assert_eq!(state.step(QueryOutcome::Success), RetryStep::Done);

    let mut state = RetryState::new();
    assert_eq!(state.step(QueryOutcome::Failure(CommandFailure::ConnectionDropped)), RetryStep::Retry);
    assert_eq!(
        state.step(QueryOutcome::Failure(CommandFailure::ConnectionDropped)),
        RetryStep::Surface(CommandFailure::ConnectionDropped)
    );

    let mut state = RetryState::new();
    assert_eq!(
        state.step(QueryOutcome::Failure(CommandFailure::Failed)),
        RetryStep::Surface(CommandFailure::Failed)
    );
    let mut state = RetryState::new();
    assert_eq!(state.step(QueryOutcome::Success), RetryStep::Done);
}

#[test]
fn errors_carry_operation_and_key() {
    let key = SessionKey::new("abc");
    let e = SessionError::in_operation(
        SessionError::CommandError(CommandFailure::Failed, "refused".to_string()),
        &key,
        SessionErrorKind::Write,
    );
    match e {
        SessionError::SessionKindError { source, key, kind } => {
            assert_eq!(key.as_str(), "abc");
            assert_eq!(kind, SessionErrorKind::Write);
            match *source {
                SessionError::CommandError(CommandFailure::Failed, detail) => assert_eq!(detail, "refused"),
                other => panic!("wrong source {:?}", other),
            }
        }
        _ => panic!("wrong variant"),
    }
    assert_eq!(SessionErrorKind::Regenerate.as_str(), "regenerate");
    assert_eq!(cortev::MissingSessionExtension.message(), "Session extension is missing");
}

#[test]
fn fresh_keys_differ_from_the_old_key() {
    let old = SessionKey::new(&"a".repeat(64));
    for _ in 0..20 {
        let k = cortev::key::fresh_key(&old);
        assert_eq!(k.as_str().len(), 64);
        assert!(k.as_str().chars().all(|c| c.is_ascii_alphanumeric()));
        assert_ne!(k.as_str(), old.as_str());
    }
}

#[test]
fn regenerate_and_invalidate_plans() {
    let space = RedisKeyspace::new(30).with_prefix("s:");
    let old = SessionKey::new("old");
    let (new, batch) = space.regenerate_plan(&old, "{}".to_string());
    assert_ne!(new.as_str(), "old");
    assert_eq!(new.as_str().len(), 64);
    assert_eq!(
        batch,
        vec![
            RedisOp::SetEx { key: format!("s:{}", new.as_str()), value: "{}".into(), ttl: 30 },
            RedisOp::Del { key: "s:old".into() },
        ]
    );
    let (new, batch) = space.invalidate_plan(&old, "{}".to_string());
    assert_ne!(new.as_str(), "old");
    assert_eq!(
        batch,
        vec![
            RedisOp::Del { key: "s:old".into() },
            RedisOp::SetEx { key: format!("s:{}", new.as_str()), value: "{}".into(), ttl: 30 },
        ]
    );
}

#[test]
fn session_cookie_values() {
    let kind = SessionKind::Cookie("sid".to_string());
    let c = session_set_cookie(&kind, &SessionKey::new("abc"), 7200);
    assert_eq!(c.name, "sid");
    assert_eq!(c.value, "abc");
    assert!(c.http_only);
    assert_eq!(c.max_age_secs, 7200);
    let c = session_set_cookie(&SessionKind::default_cookie(), &SessionKey::new("k"), u64::MAX);
    assert_eq!(c.name, "id");
    assert_eq!(c.max_age_secs, i64::MAX);
}

#[test]
fn memory_regenerate_returns_a_different_key_and_keeps_others() {
    let mut driver = MemoryDriver::new();
    let other = SessionKey::new("other");
    driver.write(other.clone(), data_with("x", JsonValue::Number(5))).unwrap();
    let old = SessionKey::new("old");
    driver.write(old.clone(), SessionData::new()).unwrap();
    let new = driver.regenerate(&old, data_with("list", JsonValue::Array(vec![JsonValue::Number(1)]))).unwrap();
    assert_ne!(new.as_str(), "old");
    assert!(driver.read(&old).unwrap().is_none());
    assert_eq!(
        driver.read(&new).unwrap().unwrap().get_ref("list"),
        Some(&JsonValue::Array(vec![JsonValue::Number(1)]))
    );
    assert_eq!(driver.read(&other).unwrap().unwrap().get::<i32>("x"), Some(5));
}
