//! The cookie jar: request cookies sorted by trust, and outgoing changes.
use vstd::prelude::*;
use crate::headers::{Cookie, header_cookies, header_texts, cookies_from_request, cookie_views};
use crate::policy::{CookieKind, EncryptionCookiePolicy, classify};
use crate::textmap::TextMap;

verus! {

/// Length of the key material that signs and encrypts cookies.
pub const KEY_MATERIAL_LENGTH: usize = 64;

#[verifier::external_type_specification]
#[verifier::external_body]
pub struct ExKey(cookie::Key);

/// Relies on `cookie::Key::master`: the key's 64 bytes of signing and
/// encryption material.
#[verifier::external_body]
fn key_material(key: &cookie::Key) -> (r: Vec<u8>)
    ensures
        r@.len() == KEY_MATERIAL_LENGTH,
{
    key.master().to_vec()
}

/// The plaintext that the cookie crate's private jar recovers from the
/// cookie `name` with the encrypted `value` under `key`, or `None` where
/// authentication fails.
pub uninterp spec fn private_opened(key: Seq<u8>, name: Seq<char>, value: Seq<char>) -> Option<Seq<char>>;

/// The value that the cookie crate's signed jar recovers from the signed
/// `value` under `key`, or `None` where the signature does not verify.
pub uninterp spec fn signed_opened(key: Seq<u8>, value: Seq<char>) -> Option<Seq<char>>;

/// The signed form of `value` under `key` that the cookie crate's signed
/// jar sends.
pub uninterp spec fn signed_sealed(key: Seq<u8>, value: Seq<char>) -> Seq<char>;

/// Relies on `cookie::PrivateJar::decrypt`: the decrypted value of the cookie,
/// or `None` where it does not authenticate under the key.
#[verifier::external_body]
fn open_private(key: &Vec<u8>, name: &str, value: &str) -> (r: Option<String>)
    requires
        key@.len() >= KEY_MATERIAL_LENGTH,
    ensures
        r is None <==> private_opened(key@, name@, value@) is None,
        r is Some ==> r->Some_0@ == private_opened(key@, name@, value@)->Some_0,
{
    let key = cookie::Key::from(key.as_slice());
    let jar = cookie::CookieJar::new();
    let cookie = cookie::Cookie::new(name.to_owned(), value.to_owned());
    jar.private(&key).decrypt(cookie).map(|c| c.value().to_owned())
}

/// Relies on `cookie::SignedJar::verify`: the value without its signature, or
/// `None` where the signature does not verify under the key.
#[verifier::external_body]
fn open_signed(key: &Vec<u8>, name: &str, value: &str) -> (r: Option<String>)
    requires
        key@.len() >= KEY_MATERIAL_LENGTH,
    ensures
        r is None <==> signed_opened(key@, value@) is None,
        r is Some ==> r->Some_0@ == signed_opened(key@, value@)->Some_0,
{
    let key = cookie::Key::from(key.as_slice());
    let jar = cookie::CookieJar::new();
    let cookie = cookie::Cookie::new(name.to_owned(), value.to_owned());
    jar.signed(&key).verify(cookie).map(|c| c.value().to_owned())
}

/// Relies on `cookie::SignedJar::add`: the value as sent, with its signature;
/// the crate documents that verification always succeeds on what a signed
/// jar with the same key produced.
#[verifier::external_body]
fn seal_signed(key: &Vec<u8>, name: &str, value: &str) -> (r: String)
    requires
        key@.len() >= KEY_MATERIAL_LENGTH,
    ensures
        r@ == signed_sealed(key@, value@),
        signed_opened(key@, r@) == Some(value@),
{
    let key = cookie::Key::from(key.as_slice());
    let mut jar = cookie::CookieJar::new();
    jar.signed_mut(&key).add(cookie::Cookie::new(name.to_owned(), value.to_owned()));
    jar.get(name).map(|c| c.value().to_owned()).unwrap_or_default()
}

/// Relies on `cookie::PrivateJar::add`: the value as sent, encrypted under a
/// fresh random nonce; the crate documents that decryption always succeeds
/// on what a private jar with the same key produced for the same name.
#[verifier::external_body]
fn seal_private(key: &Vec<u8>, name: &str, value: &str) -> (r: String)
    requires
        key@.len() >= KEY_MATERIAL_LENGTH,
    ensures
        private_opened(key@, name@, r@) == Some(value@),
{
    let key = cookie::Key::from(key.as_slice());
    let mut jar = cookie::CookieJar::new();
    jar.private_mut(&key).add(cookie::Cookie::new(name.to_owned(), value.to_owned()));
    jar.get(name).map(|c| c.value().to_owned()).unwrap_or_default()
}

/// The trusted cookies of a jar, by kind.
pub struct Buckets {
    pub normal: Map<Seq<char>, Seq<char>>,
    pub signed: Map<Seq<char>, Seq<char>>,
    pub private: Map<Seq<char>, Seq<char>>,
}

/// The buckets after one cookie of the given kind is offered; `opened` is
/// what verification or decryption gave (unused for a plain cookie). A
/// cookie that fails verification or decryption is dropped.
pub open spec fn admitted(
    b: Buckets,
    name: Seq<char>,
    value: Seq<char>,
    kind: CookieKind,
    opened: Option<Seq<char>>,
) -> Buckets {
    match kind {
        CookieKind::Normal => Buckets { normal: b.normal.insert(name, value), ..b },
        CookieKind::Signed => match opened {
            Some(v) => Buckets { signed: b.signed.insert(name, v), ..b },
            None => b,
        },
        CookieKind::Private => match opened {
            Some(v) => Buckets { private: b.private.insert(name, v), ..b },
            None => b,
        },
    }
}

/// What verification or decryption of a cookie of the given kind gives.
pub open spec fn opened_as(key: Seq<u8>, kind: CookieKind, name: Seq<char>, value: Seq<char>) -> Option<Seq<char>> {
    match kind {
        CookieKind::Normal => None,
        CookieKind::Signed => signed_opened(key, value),
        CookieKind::Private => private_opened(key, name, value),
    }
}

/// The buckets after the request cookies `cs` were offered in order.
pub open spec fn absorbed(
    key: Seq<u8>,
    inclusion: bool,
    explicit: Map<Seq<char>, CookieKind>,
    b: Buckets,
    cs: Seq<(Seq<char>, Seq<char>)>,
) -> Buckets
    decreases cs.len(),
{
    if cs.len() == 0 {
        b
    } else {
        let before = absorbed(key, inclusion, explicit, b, cs.drop_last());
        let (name, value) = cs.last();
        let kind = classify(inclusion, explicit, name);
        admitted(before, name, value, kind, opened_as(key, kind, name, value))
    }
}

/// The buckets of an empty jar.
pub open spec fn no_buckets() -> Buckets {
    Buckets { normal: Map::empty(), signed: Map::empty(), private: Map::empty() }
}

proof fn lemma_empty_buckets(a: Map<Seq<char>, String>, b: Map<Seq<char>, String>, c: Map<Seq<char>, String>)
    requires
        a == Map::<Seq<char>, String>::empty(),
        b == Map::<Seq<char>, String>::empty(),
        c == Map::<Seq<char>, String>::empty(),
    ensures
        (Buckets { normal: texts(a), signed: texts(b), private: texts(c) }) == no_buckets(),
{
    assert(texts(a) =~= Map::empty());
    assert(texts(b) =~= Map::empty());
    assert(texts(c) =~= Map::empty());
}

/// Cookies sorted into plain, signed and private ones, with the policy that
/// decides which is which and the key that signs and encrypts them.
pub struct CookieJar {
    key: Vec<u8>,
    policy: EncryptionCookiePolicy,
    normal: TextMap<String>,
    signed: TextMap<String>,
    private: TextMap<String>,
    delta: Vec<Cookie>,
}

/// The values of a map of strings, as text.
pub open spec fn texts(m: Map<Seq<char>, String>) -> Map<Seq<char>, Seq<char>> {
    m.map_values(|s: String| s@)
}

impl CookieJar {
    pub closed spec fn wf(&self) -> bool {
        &&& self.key@.len() == KEY_MATERIAL_LENGTH
        &&& self.policy.wf()
        &&& self.normal.wf()
        &&& self.signed.wf()
        &&& self.private.wf()
    }

    pub closed spec fn key_view(&self) -> Seq<u8> {
        self.key@
    }

    pub closed spec fn policy_view(&self) -> EncryptionCookiePolicy {
        self.policy
    }

    /// The trusted request cookies, by kind, with signed and private values
    /// already verified or decrypted.
    pub closed spec fn buckets(&self) -> Buckets {
        Buckets { normal: texts(self.normal@), signed: texts(self.signed@), private: texts(self.private@) }
    }

    /// The cookies to send back, with their values as sent.
    pub closed spec fn delta_view(&self) -> Seq<(Seq<char>, Seq<char>)> {
        cookie_views(self.delta@)
    }

    /// Starts building a jar that signs and encrypts with `key`.
    pub fn builder(key: cookie::Key) -> (r: CookieJarBuilder)
        ensures
            r.wf(),
            r.policy_view() is None,
    {
        CookieJarBuilder::new(key)
    }

    /// The policy that sorts the cookies.
    pub fn encryption_policy(&self) -> (r: &EncryptionCookiePolicy)
        requires
            self.wf(),
        ensures
            r.wf(),
            *r == self.policy_view(),
    {
        &self.policy
    }

    /// Offers one request cookie of kind `kind`; `opened` is what
    /// verification or decryption gave.
    pub fn accept_cookie(&mut self, name: &str, value: &str, kind: CookieKind, opened: Option<String>)
        requires
            old(self).wf(),
        ensures
            final(self).wf(),
            final(self).key_view() == old(self).key_view(),
            final(self).policy_view() == old(self).policy_view(),
            final(self).delta_view() == old(self).delta_view(),
            final(self).buckets() == admitted(
                old(self).buckets(),
                name@,
                value@,
                kind,
                match opened {
                    Some(v) => Some(v@),
                    None => None,
                },
            ),
    {
        match kind {
            CookieKind::Normal => {
                self.normal.insert(name.to_owned(), value.to_owned());
                assert(texts(self.normal@) =~= texts(old(self).normal@).insert(name@, value@));
            },
            CookieKind::Signed => match opened {
                Some(v) => {
                    let ghost vv = v@;
                    self.signed.insert(name.to_owned(), v);
                    assert(texts(self.signed@) =~= texts(old(self).signed@).insert(name@, vv));
                },
                None => {},
            },
            CookieKind::Private => match opened {
                Some(v) => {
                    let ghost vv = v@;
                    self.private.insert(name.to_owned(), v);
                    assert(texts(self.private@) =~= texts(old(self).private@).insert(name@, vv));
                },
                None => {},
            },
        }
    }

    /// A jar with this jar's key and policy holding the request's cookies:
    /// each one is classified by the policy; signed ones are kept only if
    /// their signature verifies and private ones only if they decrypt, so a
    /// forged or stale cookie reads as absent.
    pub fn from_headers(&self, headers: &[String]) -> (r: CookieJar)
        requires
            self.wf(),
        ensures
            r.wf(),
            r.key_view() == self.key_view(),
            r.policy_view().is_inclusion() == self.policy_view().is_inclusion(),
            r.policy_view().explicit() == self.policy_view().explicit(),
            r.delta_view().len() == 0,
            r.buckets() == absorbed(
                self.key_view(),
                self.policy_view().is_inclusion(),
                self.policy_view().explicit(),
                no_buckets(),
                header_cookies(header_texts(headers@)),
            ),
    {
        let cookies = cookies_from_request(headers);
        let mut jar = CookieJar {
            key: self.key.clone(),
            policy: self.policy.duplicate(),
            normal: TextMap::new(),
            signed: TextMap::new(),
            private: TextMap::new(),
            delta: Vec::new(),
        };
        assert(jar.key@ =~= self.key@);
        let ghost cs = cookie_views(cookies@);
        proof {
            lemma_empty_buckets(jar.normal@, jar.signed@, jar.private@);
        }
        assert(cs.take(0) =~= Seq::<(Seq<char>, Seq<char>)>::empty());
        let mut i: usize = 0;
        while i < cookies.len()
            invariant
                i <= cookies@.len(),
                jar.wf(),
                cs == cookie_views(cookies@),
                jar.key_view() == self.key_view(),
                jar.policy_view().is_inclusion() == self.policy_view().is_inclusion(),
                jar.policy_view().explicit() == self.policy_view().explicit(),
                jar.delta_view().len() == 0,
                jar.buckets() == absorbed(
                    self.key_view(),
                    self.policy_view().is_inclusion(),
                    self.policy_view().explicit(),
                    no_buckets(),
                    cs.take(i as int),
                ),
            decreases cookies@.len() - i,
        {
            let name = cookies[i].name();
            let value = cookies[i].value();
            let kind = jar.policy.cookie_kind(name);
            let opened = match kind {
                CookieKind::Normal => None,
                CookieKind::Signed => open_signed(&jar.key, name, value),
                CookieKind::Private => open_private(&jar.key, name, value),
            };
            jar.accept_cookie(name, value, kind, opened);
            proof {
                assert(cs.take(i + 1).drop_last() =~= cs.take(i as int));
                assert(cs.take(i + 1).last() == cookies@[i as int]@);
            }
            i = i + 1;
        }
        assert(cs.take(i as int) =~= cs);
        jar
    }

    /// The plain request cookie `name`.
    pub fn get(&self, name: &str) -> (r: Option<&str>)
        requires
            self.wf(),
        ensures
            r is Some <==> self.buckets().normal.contains_key(name@),
            r is Some ==> r->Some_0@ == self.buckets().normal[name@],
    {
        match self.normal.get(name) {
            Some(v) => Some(v.as_str()),
            None => None,
        }
    }

    /// The verified value of the signed request cookie `name`.
    pub fn get_signed(&self, name: &str) -> (r: Option<&str>)
        requires
            self.wf(),
        ensures
            r is Some <==> self.buckets().signed.contains_key(name@),
            r is Some ==> r->Some_0@ == self.buckets().signed[name@],
    {
        match self.signed.get(name) {
            Some(v) => Some(v.as_str()),
            None => None,
        }
    }

    /// The decrypted value of the private request cookie `name`.
    pub fn get_private(&self, name: &str) -> (r: Option<&str>)
        requires
            self.wf(),
        ensures
            r is Some <==> self.buckets().private.contains_key(name@),
            r is Some ==> r->Some_0@ == self.buckets().private[name@],
    {
        match self.private.get(name) {
            Some(v) => Some(v.as_str()),
            None => None,
        }
    }

    /// Sets the cookie `name` for the response: sent in the clear, signed or
    /// encrypted as the policy says.
    pub fn add(&mut self, name: &str, value: &str)
        requires
            old(self).wf(),
        ensures
            final(self).wf(),
            final(self).key_view() == old(self).key_view(),
            final(self).policy_view() == old(self).policy_view(),
            final(self).buckets() == old(self).buckets(),
            final(self).delta_view().len() == old(self).delta_view().len() + 1,
            final(self).delta_view().drop_last() == old(self).delta_view(),
            final(self).delta_view().last().0 == name@,
            old(self).policy_view().kind_of(name@) == CookieKind::Normal ==> final(self).delta_view().last().1
                == value@,
            old(self).policy_view().kind_of(name@) == CookieKind::Signed ==> final(self).delta_view().last().1
                == signed_sealed(old(self).key_view(), value@),
            opened_as(
                old(self).key_view(),
                old(self).policy_view().kind_of(name@),
                name@,
                final(self).delta_view().last().1,
            ) == (if old(self).policy_view().kind_of(name@) == CookieKind::Normal {
                None
            } else {
                Some(value@)
            }),
    {
        let kind = self.policy.cookie_kind(name);
        let wire = match kind {
            CookieKind::Normal => value.to_owned(),
            CookieKind::Signed => seal_signed(&self.key, name, value),
            CookieKind::Private => seal_private(&self.key, name, value),
        };
        self.delta.push(Cookie::new(name, wire.as_str()));
        assert(self.delta_view().drop_last() =~= old(self).delta_view());
    }

    /// The cookies set for the response, in order, with their values as sent.
    pub fn delta(&self) -> (r: &Vec<Cookie>)
        ensures
            cookie_views(r@) == self.delta_view(),
    {
        &self.delta
    }
}

/// A cookie that a jar sends, offered back to a jar with the same key and
/// the same classification, is accepted with the value that was set.
pub proof fn lemma_sent_cookie_reads_back(
    b: Buckets,
    key: Seq<u8>,
    kind: CookieKind,
    name: Seq<char>,
    value: Seq<char>,
    wire: Seq<char>,
)
    requires
        kind == CookieKind::Normal ==> wire == value,
        opened_as(key, kind, name, wire) == (if kind == CookieKind::Normal {
            None
        } else {
            Some(value)
        }),
    ensures
        ({
            let after = admitted(b, name, wire, kind, opened_as(key, kind, name, wire));
            match kind {
                CookieKind::Normal => after.normal.contains_key(name) && after.normal[name] == value,
                CookieKind::Signed => after.signed.contains_key(name) && after.signed[name] == value,
                CookieKind::Private => after.private.contains_key(name) && after.private[name] == value,
            }
        }),
{
}

/// Builds a [`CookieJar`].
pub struct CookieJarBuilder {
    key: Vec<u8>,
    encryption_policy: Option<EncryptionCookiePolicy>,
}

impl CookieJarBuilder {
    pub closed spec fn wf(&self) -> bool {
        &&& self.key@.len() == KEY_MATERIAL_LENGTH
        &&& match self.encryption_policy {
            Some(p) => p.wf(),
            None => true,
        }
    }

    pub closed spec fn policy_view(&self) -> Option<EncryptionCookiePolicy> {
        self.encryption_policy
    }

    pub fn new(key: cookie::Key) -> (r: CookieJarBuilder)
        ensures
            r.wf(),
            r.policy_view() is None,
    {
        CookieJarBuilder { key: key_material(&key), encryption_policy: None }
    }

    pub fn with_encryption_policy(self, policy: EncryptionCookiePolicy) -> (r: CookieJarBuilder)
        requires
            self.wf(),
            policy.wf(),
        ensures
            r.wf(),
            r.policy_view() == Some(policy),
    {
        CookieJarBuilder { key: self.key, encryption_policy: Some(policy) }
    }

    /// An empty jar; without a policy, every cookie is in the clear until
    /// listed.
    pub fn build(self) -> (r: CookieJar)
        requires
            self.wf(),
        ensures
            r.wf(),
            r.buckets() == no_buckets(),
            r.delta_view().len() == 0,
            self.policy_view() is Some ==> r.policy_view() == self.policy_view()->Some_0,
            self.policy_view() is None ==> r.policy_view().is_inclusion() && r.policy_view().explicit()
                == Map::<Seq<char>, CookieKind>::empty(),
    {
        let policy = match self.encryption_policy {
            Some(p) => p,
            None => EncryptionCookiePolicy::inclusion(),
        };
        let r = CookieJar {
            key: self.key,
            policy,
            normal: TextMap::new(),
            signed: TextMap::new(),
            private: TextMap::new(),
            delta: Vec::new(),
        };
        proof {
            lemma_empty_buckets(r.normal@, r.signed@, r.private@);
        }
        r
    }
}

} // verus!
