use cortev::{CookieKind, CookieMap, EncryptionCookiePolicy};

#[test]
fn test_allowlist() {
    let mut cookies = CookieMap::new();
    cookies.insert("session", CookieKind::Private);
    cookies.insert("csrftoken", CookieKind::Signed);
    cookies.insert("theme", CookieKind::Normal);

    let policy = EncryptionCookiePolicy::Inclusion(cookies);

    assert_eq!(policy.cookie_kind("session"), CookieKind::Private);
    assert_eq!(policy.cookie_kind("csrftoken"), CookieKind::Signed);
    assert_eq!(policy.cookie_kind("theme"), CookieKind::Normal);
    assert_eq!(policy.cookie_kind("other"), CookieKind::Normal);
}

#[test]
fn test_denylist() {
    let mut cookies = CookieMap::new();
    cookies.insert("theme", CookieKind::Normal);

    let policy = EncryptionCookiePolicy::Exclusion(cookies);
    assert_eq!(policy.cookie_kind("session"), CookieKind::Private);
    assert_eq!(policy.cookie_kind("csrftoken"), CookieKind::Private);
    assert_eq!(policy.cookie_kind("theme"), CookieKind::Normal);
}

#[test]
fn test_default() {
    let policy = EncryptionCookiePolicy::default();

    assert_eq!(policy.cookie_kind("session"), CookieKind::Normal);
    assert_eq!(policy.cookie_kind("csrftoken"), CookieKind::Normal);
    assert_eq!(policy.cookie_kind("theme"), CookieKind::Normal);
}

#[test]
fn test_insert() {
    let mut policy = EncryptionCookiePolicy::default();
    policy.insert("session", CookieKind::Private);
    policy.insert("csrftoken", CookieKind::Signed);

    assert_eq!(policy.cookie_kind("session"), CookieKind::Private);
    assert_eq!(policy.cookie_kind("csrftoken"), CookieKind::Signed);
    assert_eq!(policy.cookie_kind("theme"), CookieKind::Normal);
}

#[test]
fn test_insert_exclusion() {
    let mut policy = EncryptionCookiePolicy::exclusion();
    policy.insert("theme", CookieKind::Private);

    assert_eq!(policy.cookie_kind("session"), CookieKind::Private);
    assert_eq!(policy.cookie_kind("csrftoken"), CookieKind::Private);
    assert_eq!(policy.cookie_kind("theme"), CookieKind::Private);
}

#[test]
fn test_insert_inclusion() {
    let mut policy = EncryptionCookiePolicy::inclusion();
    policy.insert("session", CookieKind::Private);
    policy.insert("csrftoken", CookieKind::Signed);

    assert_eq!(policy.cookie_kind("session"), CookieKind::Private);
    assert_eq!(policy.cookie_kind("csrftoken"), CookieKind::Signed);
    assert_eq!(policy.cookie_kind("theme"), CookieKind::Normal);
}

#[test]
fn classification_scenario_inclusion_and_exclusion() {
    let mut listed = CookieMap::new();
    listed.insert("session", CookieKind::Private);
    listed.insert("csrf", CookieKind::Signed);
    let inclusion = EncryptionCookiePolicy::Inclusion(listed);
    assert_eq!(inclusion.cookie_kind("session"), CookieKind::Private);
    assert_eq!(inclusion.cookie_kind("csrf"), CookieKind::Signed);
    assert_eq!(inclusion.cookie_kind("theme"), CookieKind::Normal);

    let mut listed = CookieMap::new();
    listed.insert("theme", CookieKind::Normal);
    let exclusion = EncryptionCookiePolicy::Exclusion(listed);
    assert_eq!(exclusion.cookie_kind("theme"), CookieKind::Normal);
    assert_eq!(exclusion.cookie_kind("session"), CookieKind::Private);
}

#[test]
fn cookie_map_lookup_and_comparison() {
    let mut a = CookieMap::new();
    assert!(!a.has("id"));
    assert_eq!(a.get("id"), None);
    a.insert("id", CookieKind::Signed);
    a.insert("theme", CookieKind::Normal);
    a.insert("id", CookieKind::Private);
    assert!(a.has("id"));
    assert_eq!(a.get("id"), Some(CookieKind::Private));

    let mut b = CookieMap::new();
    b.insert("theme", CookieKind::Normal);
    b.insert("id", CookieKind::Private);
    assert!(a.same_as(&b));
    b.insert("theme", CookieKind::Signed);
    assert!(!a.same_as(&b));

    let p = EncryptionCookiePolicy::Inclusion(a.clone());
    let q = EncryptionCookiePolicy::Exclusion(a);
    assert!(!p.same_as(&q));
    assert!(p.same_as(&p.duplicate()));
}
