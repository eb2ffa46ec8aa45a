use cortev::{
    cookies_from_request, session_cookie, typed_cookies_from_request, CookieJar, CookieKind,
    CookieMap, EncryptionCookiePolicy,
};
use cortev::jar::CookieJarBuilder;

fn header(value: &str) -> Vec<String> {
    vec![value.to_string()]
}

fn create_private_cookie_value(key: &cookie::Key, id: &'static str, value: &'static str) -> String {
    let mut id_encrypted = cookie::CookieJar::new();
    let mut private_jar = id_encrypted.private_mut(key);
    private_jar.add(cookie::Cookie::new(id, value));
    id_encrypted.get(id).unwrap().value().to_owned()
}

fn create_signed_cookie_value(key: &cookie::Key, id: &'static str, value: &'static str) -> String {
    let mut id_encrypted = cookie::CookieJar::new();
    let mut signed_jar = id_encrypted.signed_mut(key);
    signed_jar.add(cookie::Cookie::new(id, value));
    id_encrypted.get(id).unwrap().value().to_owned()
}

#[test]
fn test_builder() {
    let key = cookie::Key::generate();
    let builder = CookieJarBuilder::new(key);
    let jar = builder.build();
    assert!(jar.encryption_policy().same_as(&EncryptionCookiePolicy::default()));
}

#[test]
fn test_builder_with_encryption_policy() {
    let key = cookie::Key::generate();
    let policy = EncryptionCookiePolicy::Exclusion(CookieMap::new());
    let builder = CookieJarBuilder::new(key).with_encryption_policy(policy.clone());
    let jar = builder.build();
    assert!(jar.encryption_policy().same_as(&policy));
}

#[test]
fn test_typed_cookies_from_request() {
    let mut cookies = CookieMap::new();
    cookies.insert("session", CookieKind::Private);
    cookies.insert("csrftoken", CookieKind::Signed);
    cookies.insert("theme", CookieKind::Normal);

    let policy = EncryptionCookiePolicy::Inclusion(cookies);

    let headers = header("session=1234; csrftoken=5678; theme=light");

    let typed_cookies: Vec<_> = typed_cookies_from_request(&headers, &policy);
    assert_eq!(typed_cookies.len(), 3);

    assert_eq!(typed_cookies[0].kind(), CookieKind::Private);
    assert_eq!(typed_cookies[1].kind(), CookieKind::Signed);
    assert_eq!(typed_cookies[2].kind(), CookieKind::Normal);
}

#[test]
fn test_cookies_from_request() {
    let headers = header("session=1234; csrftoken=5678; theme=light");

    let cookies: Vec<_> = cookies_from_request(&headers);
    assert_eq!(cookies.len(), 3);

    assert_eq!(cookies[0].name(), "session");
    assert_eq!(cookies[0].value(), "1234");

    assert_eq!(cookies[1].name(), "csrftoken");
    assert_eq!(cookies[1].value(), "5678");

    assert_eq!(cookies[2].name(), "theme");
    assert_eq!(cookies[2].value(), "light");
}

#[test]
fn test_cookie_jar() {
    let key = cookie::Key::generate();
    let policy = EncryptionCookiePolicy::default();
    let jar = CookieJar::builder(key).with_encryption_policy(policy).build();

    let headers = header("session=1234; csrftoken=5678; theme=light");

    let jar = jar.from_headers(&headers);

    assert_eq!(jar.get("session").unwrap(), "1234");
    assert_eq!(jar.get("csrftoken").unwrap(), "5678");
    assert_eq!(jar.get("theme").unwrap(), "light");
}

#[test]
fn test_private_cookie_encrypted() {
    let key = cookie::Key::generate();
    let mut policy = EncryptionCookiePolicy::default();
    policy.insert("id", CookieKind::Private);

    let id = create_private_cookie_value(&key, "id", "1234");

    let jar = CookieJar::builder(key.clone()).with_encryption_policy(policy).build();

    let headers = header(&format!("id={}; csrftoken=5678; theme=light", id));

    let jar = jar.from_headers(&headers);

    assert_eq!(jar.get_private("id").unwrap(), "1234");
    assert_eq!(jar.get("theme").unwrap(), "light");
}

#[test]
fn test_signed_cookie_encrypted() {
    let key = cookie::Key::generate();
    let mut policy = EncryptionCookiePolicy::default();
    policy.insert("id", CookieKind::Signed);

    let id = create_signed_cookie_value(&key, "id", "1234");

    let jar = CookieJar::builder(key.clone()).with_encryption_policy(policy).build();

    let headers = header(&format!("id={}; csrftoken=5678; theme=light", id));

    let jar = jar.from_headers(&headers);

    assert_eq!(jar.get_signed("id").unwrap(), "1234");
    assert_eq!(jar.get("theme").unwrap(), "light");
}

#[test]
fn tampered_private_cookie_reads_as_absent() {
    let key = cookie::Key::generate();
    let mut policy = EncryptionCookiePolicy::default();
    policy.insert("session", CookieKind::Private);

    let sealed = create_private_cookie_value(&key, "session", "abcdef");
    let mut bytes = sealed.into_bytes();
    let last = bytes.len() - 2;
    bytes[last] = if bytes[last] == b'A' { b'B' } else { b'A' };
    let tampered = String::from_utf8(bytes).unwrap();

    let jar = CookieJar::builder(key).with_encryption_policy(policy).build();
    let jar = jar.from_headers(&header(&format!("session={}; theme=dark", tampered)));
    assert_eq!(jar.get_private("session"), None);
    assert_eq!(jar.get("session"), None);
    assert_eq!(jar.get("theme"), Some("dark"));
}

#[test]
fn cookie_under_another_key_reads_as_absent() {
    let key = cookie::Key::generate();
    let other = cookie::Key::generate();
    let mut policy = EncryptionCookiePolicy::exclusion();
    policy.insert("theme", CookieKind::Normal);
    policy.insert("csrf", CookieKind::Signed);
    let sealed = create_private_cookie_value(&other, "session", "abc");
    let signed = create_signed_cookie_value(&other, "csrf", "xyz");

    let jar = CookieJar::builder(key).with_encryption_policy(policy).build();
    let jar = jar.from_headers(&header(&format!("session={}; csrf={}; theme=dark", sealed, signed)));
    assert_eq!(jar.get_private("session"), None);
    assert_eq!(jar.get_signed("csrf"), None);
    assert_eq!(jar.get("theme"), Some("dark"));
}

#[test]
fn outgoing_cookies_follow_the_policy() {
    let key = cookie::Key::generate();
    let mut policy = EncryptionCookiePolicy::default();
    policy.insert("session", CookieKind::Private);
    policy.insert("csrf", CookieKind::Signed);
    let mut jar = CookieJar::builder(key.clone()).with_encryption_policy(policy).build();
    jar.add("theme", "dark");
    jar.add("csrf", "token");
    jar.add("session", "secret");
    let delta = jar.delta();
    assert_eq!(delta.len(), 3);
    assert_eq!(delta[0].name(), "theme");
    assert_eq!(delta[0].value(), "dark");
    assert_eq!(delta[1].name(), "csrf");
    assert_ne!(delta[1].value(), "token");
    assert_eq!(delta[2].name(), "session");
    assert_ne!(delta[2].value(), "secret");

    let back = jar.from_headers(&header(&format!(
        "csrf={}; session={}",
        delta[1].value(),
        delta[2].value()
    )));
    assert_eq!(back.get_signed("csrf"), Some("token"));
    assert_eq!(back.get_private("session"), Some("secret"));
}

#[test]
fn malformed_pieces_are_skipped() {
    let headers = vec![
        "a=1;;  b = 2 ;novalue; =x".to_string(),
        "c=3".to_string(),
    ];
    let cookies = cookies_from_request(&headers);
    let pairs: Vec<(&str, &str)> = cookies.iter().map(|c| (c.name(), c.value())).collect();
    assert_eq!(pairs, vec![("a", "1"), ("b", "2"), ("c", "3")]);
    assert!(cookies_from_request(&[]).is_empty());
}

#[test]
fn percent_encoded_values_are_decoded() {
    let cookies = cookies_from_request(&header("greeting=hello%20world"));
    assert_eq!(cookies.len(), 1);
    assert_eq!(cookies[0].value(), "hello world");
}

#[test]
fn first_cookie_with_the_name_wins() {
    let headers = vec!["theme=light; id=first".to_string(), "id=second".to_string()];
    let found = session_cookie(&headers, "id").unwrap();
    assert_eq!(found.value(), "first");
    assert!(session_cookie(&headers, "missing").is_none());
    let typed = typed_cookies_from_request(&headers, &EncryptionCookiePolicy::exclusion());
    assert_eq!(typed.len(), 3);
    assert_eq!(typed[2].kind(), CookieKind::Private);
    assert_eq!(typed[2].clone().into_cookie().value(), "second");
}
