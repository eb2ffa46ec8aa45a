//! Which cookies are signed, encrypted or left in the clear.
use vstd::prelude::*;
use crate::textmap::TextMap;

verus! {

/// How a cookie's value travels.
#[derive(Debug, Clone, Copy, PartialEq, Eq, Structural)]
pub enum CookieKind {
    /// In the clear.
    Normal,
    /// Signed: readable, but tampering is detected.
    Signed,
    /// Encrypted and authenticated.
    Private,
}

/// Cookie names with an explicit kind each.
#[derive(Debug, Clone)]
pub struct CookieMap {
    data: TextMap<CookieKind>,
}

impl View for CookieMap {
    type V = Map<Seq<char>, CookieKind>;

    closed spec fn view(&self) -> Map<Seq<char>, CookieKind> {
        self.data@
    }
}

impl CookieMap {
    pub closed spec fn wf(&self) -> bool {
        self.data.wf()
    }

    pub fn new() -> (r: CookieMap)
        ensures
            r.wf(),
            r@ == Map::<Seq<char>, CookieKind>::empty(),
    {
        CookieMap { data: TextMap::new() }
    }

    /// Gives the cookie `key` the kind `kind`.
    pub fn insert(&mut self, key: &str, kind: CookieKind)
        requires
            old(self).wf(),
        ensures
            final(self).wf(),
            final(self)@ == old(self)@.insert(key@, kind),
    {
        self.data.insert(key.to_owned(), kind);
    }

    /// The kind given to `key`, if any.
    pub fn get(&self, key: &str) -> (r: Option<CookieKind>)
        requires
            self.wf(),
        ensures
            r == (if self@.contains_key(key@) {
                Some(self@[key@])
            } else {
                None
            }),
    {
        match self.data.get(key) {
            Some(k) => Some(*k),
            None => None,
        }
    }

    /// Whether `key` has a kind of its own.
    pub fn has(&self, key: &str) -> (r: bool)
        requires
            self.wf(),
        ensures
            r == self@.contains_key(key@),
    {
        self.data.contains_key(key)
    }

    /// A copy of this map.
    pub fn duplicate(&self) -> (r: CookieMap)
        requires
            self.wf(),
        ensures
            r.wf(),
            r@ == self@,
    {
        CookieMap { data: self.data.copied() }
    }

    /// Whether both maps give the same names the same kinds.
    pub fn same_as(&self, other: &CookieMap) -> (r: bool)
        requires
            self.wf(),
            other.wf(),
        ensures
            r == (self@ == other@),
    {
        proof {
            self.data.lemma_keys();
            other.data.lemma_keys();
        }
        if self.data.len() != other.data.len() {
            return false;
        }
        let n = self.data.len();
        let mut i: usize = 0;
        while i < n
            invariant
                self.wf(),
                other.wf(),
                n == self.data.key_seq().len(),
                n == self@.dom().len(),
                n == other@.dom().len(),
                i <= n,
                self@.dom().finite(),
                other@.dom().finite(),
                forall|k: Seq<char>| self@.contains_key(k) <==> self.data.key_seq().contains(k),
                forall|j: int| 0 <= j < i ==> other@.contains_key(#[trigger] self.data.key_seq()[j])
                    && other@[self.data.key_seq()[j]] == self@[self.data.key_seq()[j]],
            decreases n - i,
        {
            let (k, v) = self.data.entry_at(i);
            match other.data.get(k.as_str()) {
                Some(w) => {
                    if *w != *v {
                        return false;
                    }
                },
                None => {
                    return false;
                },
            }
            i = i + 1;
        }
        proof {
            assert forall|k: Seq<char>| self@.contains_key(k) implies other@.contains_key(k) && other@[k]
                == self@[k] by {
                let j = choose|j: int| 0 <= j < self.data.key_seq().len() && self.data.key_seq()[j] == k;
                assert(other@.contains_key(self.data.key_seq()[j]));
            }
            assert(self@.dom().subset_of(other@.dom()));
            vstd::set_lib::lemma_subset_equality(self@.dom(), other@.dom());
            assert(self@ =~= other@);
        }
        true
    }
}

impl Default for CookieMap {
    fn default() -> (r: CookieMap)
        ensures
            r.wf(),
            r@ == Map::<Seq<char>, CookieKind>::empty(),
    {
        CookieMap::new()
    }
}

/// Which kind a cookie gets: its explicit kind, or the policy's default
/// (`Normal` for an inclusion list, `Private` for an exclusion list).
#[derive(Debug, Clone)]
pub enum EncryptionCookiePolicy {
    Inclusion(CookieMap),
    Exclusion(CookieMap),
}

/// The kind that a policy gives the cookie `name`.
pub open spec fn classify(inclusion: bool, explicit: Map<Seq<char>, CookieKind>, name: Seq<char>) -> CookieKind {
    if explicit.contains_key(name) {
        explicit[name]
    } else if inclusion {
        CookieKind::Normal
    } else {
        CookieKind::Private
    }
}

impl EncryptionCookiePolicy {
    pub closed spec fn wf(&self) -> bool {
        match self {
            EncryptionCookiePolicy::Inclusion(m) => m.wf(),
            EncryptionCookiePolicy::Exclusion(m) => m.wf(),
        }
    }

    /// Whether unlisted cookies are left in the clear.
    pub closed spec fn is_inclusion(&self) -> bool {
        self is Inclusion
    }

    /// The explicitly listed kinds.
    pub closed spec fn explicit(&self) -> Map<Seq<char>, CookieKind> {
        match self {
            EncryptionCookiePolicy::Inclusion(m) => m@,
            EncryptionCookiePolicy::Exclusion(m) => m@,
        }
    }

    /// The kind of every cookie name under this policy.
    pub open spec fn kind_of(&self, name: Seq<char>) -> CookieKind {
        classify(self.is_inclusion(), self.explicit(), name)
    }

    /// Whether both policies give every cookie name the same kind by the same
    /// rule: the same default and the same explicit kinds.
    pub fn same_as(&self, other: &EncryptionCookiePolicy) -> (r: bool)
        requires
            self.wf(),
            other.wf(),
        ensures
            r == (self.is_inclusion() == other.is_inclusion() && self.explicit() == other.explicit()),
    {
        match (self, other) {
            (EncryptionCookiePolicy::Inclusion(a), EncryptionCookiePolicy::Inclusion(b)) => a.same_as(b),
            (EncryptionCookiePolicy::Exclusion(a), EncryptionCookiePolicy::Exclusion(b)) => a.same_as(b),
            _ => false,
        }
    }

    /// A copy of this policy.
    pub fn duplicate(&self) -> (r: EncryptionCookiePolicy)
        requires
            self.wf(),
        ensures
            r.wf(),
            r.is_inclusion() == self.is_inclusion(),
            r.explicit() == self.explicit(),
    {
        match self {
            EncryptionCookiePolicy::Inclusion(m) => EncryptionCookiePolicy::Inclusion(m.duplicate()),
            EncryptionCookiePolicy::Exclusion(m) => EncryptionCookiePolicy::Exclusion(m.duplicate()),
        }
    }

    /// An empty inclusion list: every cookie is in the clear until listed.
    pub fn inclusion() -> (r: EncryptionCookiePolicy)
        ensures
            r.wf(),
            r.is_inclusion(),
            r.explicit() == Map::<Seq<char>, CookieKind>::empty(),
    {
        EncryptionCookiePolicy::Inclusion(CookieMap::new())
    }

    /// An empty exclusion list: every cookie is encrypted until listed.
    pub fn exclusion() -> (r: EncryptionCookiePolicy)
        ensures
            r.wf(),
            !r.is_inclusion(),
            r.explicit() == Map::<Seq<char>, CookieKind>::empty(),
    {
        EncryptionCookiePolicy::Exclusion(CookieMap::new())
    }

    /// Gives the cookie `key` the kind `kind`.
    pub fn insert(&mut self, key: &str, kind: CookieKind)
        requires
            old(self).wf(),
        ensures
            final(self).wf(),
            final(self).is_inclusion() == old(self).is_inclusion(),
            final(self).explicit() == old(self).explicit().insert(key@, kind),
    {
        match self {
            EncryptionCookiePolicy::Inclusion(cookies) => {
                cookies.insert(key, kind);
            },
            EncryptionCookiePolicy::Exclusion(cookies) => {
                cookies.insert(key, kind);
            },
        }
    }

    /// The kind of the cookie `key`.
    pub fn cookie_kind(&self, key: &str) -> (r: CookieKind)
        requires
            self.wf(),
        ensures
            r == self.kind_of(key@),
    {
        match self {
            EncryptionCookiePolicy::Inclusion(cookies) => match cookies.get(key) {
                Some(k) => k,
                None => CookieKind::Normal,
            },
            EncryptionCookiePolicy::Exclusion(cookies) => match cookies.get(key) {
                Some(k) => k,
                None => CookieKind::Private,
            },
        }
    }
}

impl Default for EncryptionCookiePolicy {
    fn default() -> (r: EncryptionCookiePolicy)
        ensures
            r.wf(),
            r.is_inclusion(),
            r.explicit() == Map::<Seq<char>, CookieKind>::empty(),
    {
        EncryptionCookiePolicy::inclusion()
    }
}

/// Every cookie name gets exactly one kind: a listed name its own, an
/// unlisted one the policy's default.
pub proof fn lemma_classification_total(policy: EncryptionCookiePolicy, name: Seq<char>)
    ensures
        policy.explicit().contains_key(name) ==> policy.kind_of(name) == policy.explicit()[name],
        !policy.explicit().contains_key(name) && policy.is_inclusion() ==> policy.kind_of(name)
            == CookieKind::Normal,
        !policy.explicit().contains_key(name) && !policy.is_inclusion() ==> policy.kind_of(name)
            == CookieKind::Private,
        policy.kind_of(name) == CookieKind::Normal || policy.kind_of(name) == CookieKind::Signed
            || policy.kind_of(name) == CookieKind::Private,
{
}

} // verus!
