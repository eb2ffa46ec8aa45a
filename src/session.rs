//! Sessions: a key, a lifecycle state and the stored data.
use vstd::prelude::*;
use crate::key::{SessionKey, generate_random_key, is_token};
use crate::state::{SessionState, merged};
use crate::textmap::{TextMap, lemma_push_contains};
use crate::value::{JsonValue, FromJsonValue, same_value};

verus! {

/// The payload stored for a session: text keys mapped to values.
pub type SessionData = TextMap<JsonValue>;

/// The reserved key of the per-session random token.
pub open spec fn token_key() -> Seq<char> {
    "_token"@
}

/// Length of the per-session random token.
pub const TOKEN_LENGTH: usize = 40;

/// What `k` decodes to as a `V`, if it is stored and decodes.
pub open spec fn decoded_at<V: FromJsonValue>(data: Map<Seq<char>, JsonValue>, k: Seq<char>) -> Option<V> {
    if data.contains_key(k) {
        V::decoded(data[k])
    } else {
        None
    }
}

/// The text stored under `k`, if it is a string value.
pub open spec fn str_at(data: Map<Seq<char>, JsonValue>, k: Seq<char>) -> Option<Seq<char>> {
    if data.contains_key(k) && data[k] is String {
        Some(data[k]->String_0@)
    } else {
        None
    }
}

/// The integer a counter starts from: the stored value if it reads as an
/// `i32`, else 0.
pub open spec fn counter_at(data: Map<Seq<char>, JsonValue>, k: Seq<char>) -> i32 {
    match decoded_at::<i32>(data, k) {
        Some(n) => n,
        None => 0,
    }
}

/// The data after a counter moves by `by`, wrapping at the ends of `i32`.
pub open spec fn counted(data: Map<Seq<char>, JsonValue>, k: Seq<char>, by: i32) -> Map<Seq<char>, JsonValue> {
    data.insert(k, JsonValue::Number(counter_at(data, k).wrapping_add(by) as i64))
}

/// The data with a fresh token: everything else as before, and the token a
/// string of `TOKEN_LENGTH` letters and digits.
pub open spec fn token_refreshed(before: Map<Seq<char>, JsonValue>, after: Map<Seq<char>, JsonValue>) -> bool {
    &&& after.remove(token_key()) == before.remove(token_key())
    &&& after.contains_key(token_key())
    &&& after[token_key()] is String
    &&& is_token(after[token_key()]->String_0@, TOKEN_LENGTH as nat)
}

/// `b` holds the same keys as `a`, each with the same value.
pub open spec fn same_data(a: Map<Seq<char>, JsonValue>, b: Map<Seq<char>, JsonValue>) -> bool {
    &&& a.dom() == b.dom()
    &&& forall|k: Seq<char>| #[trigger] a.contains_key(k) ==> same_value(a[k], b[k])
}

impl SessionData {
    /// Data for a new session: only a fresh random token.
    pub fn session() -> (r: SessionData)
        ensures
            r.wf(),
            r@.dom() == set![token_key()],
            r@[token_key()] is String,
            is_token(r@[token_key()]->String_0@, TOKEN_LENGTH as nat),
    {
        let mut map = TextMap::new();
        let token = generate_random_key(TOKEN_LENGTH);
        map.insert("_token".to_owned(), JsonValue::String(token));
        proof {
            reveal_strlit("_token");
        }
        assert(map@.dom() =~= set![token_key()]);
        map
    }

    /// A copy of this data.
    pub fn duplicate(&self) -> (r: SessionData)
        requires
            self.wf(),
        ensures
            r.wf(),
            same_data(self@, r@),
    {
        let mut out = TextMap::new();
        proof {
            self.lemma_keys();
        }
        let n = self.len();
        let mut i: usize = 0;
        while i < n
            invariant
                self.wf(),
                out.wf(),
                n == self.key_seq().len(),
                i <= n,
                self.key_seq().no_duplicates(),
                forall|k: Seq<char>| self@.contains_key(k) <==> self.key_seq().contains(k),
                forall|x: Seq<char>| #[trigger] out@.contains_key(x) == self.key_seq().take(i as int).contains(x),
                forall|x: Seq<char>| out@.contains_key(x) ==> same_value(self@[x], #[trigger] out@[x]),
            decreases n - i,
        {
            let (k, v) = self.entry_at(i);
            let ghost before = self.key_seq().take(i as int);
            let ghost prev = out@;
            let ghost kk = k@;
            out.insert(k.clone(), v.duplicate());
            i = i + 1;
            assert(self.key_seq().take(i as int) =~= before.push(kk));
            assert forall|x: Seq<char>| #[trigger] out@.contains_key(x) == self.key_seq().take(i as int).contains(x) by {
                lemma_push_contains(before, kk, x);
            }
        }
        assert(self.key_seq().take(n as int) =~= self.key_seq());
        assert(out@.dom() =~= self@.dom());
        out
    }
}

/// The mathematical content of a session.
pub struct SessionView {
    pub key: Seq<char>,
    pub state: SessionState,
    pub data: Map<Seq<char>, JsonValue>,
}

/// A session: every mutator consumes it and hands back the next value.
#[derive(Debug, Clone)]
pub struct Session {
    key: SessionKey,
    state: SessionState,
    data: SessionData,
}

impl View for Session {
    type V = SessionView;

    closed spec fn view(&self) -> SessionView {
        SessionView { key: self.key@, state: self.state, data: self.data@ }
    }
}

/// The error of [`Session::try_get`]: the stored value (or null, where none is
/// stored) does not read as the asked type.
#[derive(Debug, Clone, Copy, PartialEq, Eq, Structural)]
pub struct DecodeError;

/// Marker: the builder has been given session data.
#[derive(Debug)]
pub struct WithData;

/// Marker: the builder has not yet been given session data.
#[derive(Debug)]
pub struct NoData;

/// The same marker under its other name.
pub type WithoutData = NoData;

/// Builds a [`Session`]; `build` is only available once data was given.
#[derive(Debug)]
pub struct SessionBuilder<State = NoData> {
    key: SessionKey,
    data: SessionData,
    marker: core::marker::PhantomData<State>,
}

impl<State> SessionBuilder<State> {
    pub closed spec fn key_view(&self) -> Seq<char> {
        self.key@
    }

    pub closed spec fn data_view(&self) -> Map<Seq<char>, JsonValue> {
        self.data@
    }

    pub closed spec fn wf(&self) -> bool {
        self.data.wf()
    }
}

impl SessionBuilder<NoData> {
    pub fn new(key: SessionKey) -> (r: SessionBuilder<NoData>)
        ensures
            r.wf(),
            r.key_view() == key@,
    {
        SessionBuilder { key, data: TextMap::new(), marker: core::marker::PhantomData }
    }

    pub fn with_data(self, data: SessionData) -> (r: SessionBuilder<WithData>)
        requires
            data.wf(),
        ensures
            r.wf(),
            r.key_view() == self.key_view(),
            r.data_view() == data@,
    {
        SessionBuilder { key: self.key, data, marker: core::marker::PhantomData }
    }
}

impl SessionBuilder<WithData> {
    pub fn build(self) -> (r: Session)
        requires
            self.wf(),
        ensures
            r.wf(),
            r@ == (SessionView { key: self.key_view(), state: SessionState::Unchanged, data: self.data_view() }),
    {
        Session { key: self.key, data: self.data, state: SessionState::Unchanged }
    }
}

/// Which keys a [`SessionSubset`] keeps.
#[derive(Debug, Clone, Copy, PartialEq, Eq, Structural)]
pub enum SessionSubsetKind {
    /// Only the listed keys.
    Only,
    /// Every key but the listed ones.
    Except,
}

/// The texts of a list of names.
pub open spec fn names_of(keys: Seq<&str>) -> Seq<Seq<char>> {
    keys.map_values(|s: &str| s@)
}

/// Whether a subset of the given kind over the given names keeps `k`.
pub open spec fn selected(kind: SessionSubsetKind, names: Seq<Seq<char>>, k: Seq<char>) -> bool {
    match kind {
        SessionSubsetKind::Only => names.contains(k),
        SessionSubsetKind::Except => !names.contains(k),
    }
}

/// The part of `data` that a subset keeps.
pub open spec fn filtered(
    data: Map<Seq<char>, JsonValue>,
    kind: SessionSubsetKind,
    names: Seq<Seq<char>>,
) -> Map<Seq<char>, JsonValue> {
    Map::new(|k: Seq<char>| data.contains_key(k) && selected(kind, names, k), |k: Seq<char>| data[k])
}

/// A view of part of a session's data, keeping or leaving out listed keys.
#[derive(Debug)]
pub struct SessionSubset<'a> {
    data: &'a SessionData,
    keys: &'a [&'a str],
    kind: SessionSubsetKind,
    session_key: &'a SessionKey,
    state: SessionState,
}

impl<'a> SessionSubset<'a> {
    pub closed spec fn wf(&self) -> bool {
        self.data.wf()
    }

    /// The data that the subset shows.
    pub closed spec fn view(&self) -> Map<Seq<char>, JsonValue> {
        filtered(self.data@, self.kind, names_of(self.keys@))
    }

    pub closed spec fn kind_view(&self) -> SessionSubsetKind {
        self.kind
    }

    pub closed spec fn names(&self) -> Seq<Seq<char>> {
        names_of(self.keys@)
    }

    /// The session that the subset was taken from.
    pub closed spec fn source(&self) -> SessionView {
        SessionView { key: self.session_key@, state: self.state, data: self.data@ }
    }

    /// Whether the subset's rule keeps `key` (whether or not it is stored).
    pub fn has(&self, key: &str) -> (r: bool)
        ensures
            r == selected(self.kind_view(), self.names(), key@),
    {
        let target = key.to_owned();
        let mut found = false;
        let mut i: usize = 0;
        while i < self.keys.len()
            invariant
                i <= self.keys@.len(),
                target@ == key@,
                found == names_of(self.keys@.take(i as int)).contains(key@),
            decreases self.keys@.len() - i,
        {
            let candidate = self.keys[i].to_owned();
            let hit = candidate == target;
            proof {
                let before = names_of(self.keys@.take(i as int));
                let after = names_of(self.keys@.take(i + 1));
                assert(after =~= before.push(self.keys@[i as int]@));
                lemma_push_contains(before, self.keys@[i as int]@, key@);
                if hit {
                    assert(after[i as int] == key@);
                }
                if after.contains(key@) && !hit {
                    let j = choose|j: int| 0 <= j < after.len() && after[j] == key@;
                    assert(j < i);
                    assert(before[j] == key@);
                }
            }
            found = found || hit;
            i = i + 1;
        }
        assert(self.keys@.take(i as int) =~= self.keys@);
        match self.kind {
            SessionSubsetKind::Only => found,
            SessionSubsetKind::Except => !found,
        }
    }

    /// The raw value under `key`, if the subset keeps it.
    pub fn get_ref(&self, key: &str) -> (r: Option<&JsonValue>)
        requires
            self.wf(),
        ensures
            r == (if self@.contains_key(key@) {
                Some(&self@[key@])
            } else {
                None
            }),
    {
        if self.has(key) {
            self.data.get(key)
        } else {
            None
        }
    }

    /// The value under `key` read as a `V`, if the subset keeps it and it reads.
    pub fn get<V: FromJsonValue>(&self, key: &str) -> (r: Option<V>)
        requires
            self.wf(),
        ensures
            r == decoded_at::<V>(self@, key@),
    {
        match self.get_ref(key) {
            Some(v) => V::from_json_value(v),
            None => None,
        }
    }

    /// The text under `key`, if the subset keeps it and it is a string.
    pub fn get_str(&self, key: &str) -> (r: Option<&str>)
        requires
            self.wf(),
        ensures
            r.is_some() == str_at(self@, key@).is_some(),
            r.is_some() ==> r.unwrap()@ == str_at(self@, key@).unwrap(),
    {
        match self.get_ref(key) {
            Some(v) => v.as_str(),
            None => None,
        }
    }

    /// The kept data as data of its own.
    pub fn to_all(&self) -> (r: SessionData)
        requires
            self.wf(),
        ensures
            r.wf(),
            same_data(self@, r@),
    {
        let mut out = TextMap::new();
        proof {
            self.data.lemma_keys();
        }
        let n = self.data.len();
        let mut i: usize = 0;
        while i < n
            invariant
                self.wf(),
                out.wf(),
                n == self.data.key_seq().len(),
                i <= n,
                self.data.key_seq().no_duplicates(),
                forall|k: Seq<char>| self.data@.contains_key(k) <==> self.data.key_seq().contains(k),
                forall|x: Seq<char>| #[trigger] out@.contains_key(x) == (self.data.key_seq().take(i as int).contains(x)
                    && selected(self.kind, self.names(), x)),
                forall|x: Seq<char>| out@.contains_key(x) ==> same_value(self.data@[x], #[trigger] out@[x]),
            decreases n - i,
        {
            let (k, v) = self.data.entry_at(i);
            let ghost before = self.data.key_seq().take(i as int);
            let ghost kk = k@;
            if self.has(k.as_str()) {
                out.insert(k.clone(), v.duplicate());
            }
            i = i + 1;
            assert(self.data.key_seq().take(i as int) =~= before.push(kk));
            assert forall|x: Seq<char>| #[trigger] out@.contains_key(x) == (self.data.key_seq().take(i as int).contains(x) && selected(self.kind, self.names(), x)) by {
                lemma_push_contains(before, kk, x);
            }
        }
        assert(self.data.key_seq().take(n as int) =~= self.data.key_seq());
        assert(out@.dom() =~= self@.dom());
        out
    }

    /// A session holding only the kept data, under the same key, marked as changed.
    pub fn into_session(self) -> (r: Session)
        requires
            self.wf(),
        ensures
            r.wf(),
            r@.key == self.source().key,
            r@.state == merged(self.source().state, SessionState::Changed),
            same_data(self@, r@.data),
    {
        let data = self.to_all();
        Session {
            key: self.session_key.duplicate(),
            state: self.state.transition(SessionState::Changed),
            data,
        }
    }
}

/// The texts of a list of names, as a set.
pub open spec fn name_set(keys: Seq<&str>) -> Set<Seq<char>> {
    names_of(keys).to_set()
}

impl Session {
    pub closed spec fn wf(&self) -> bool {
        self.data.wf()
    }

    /// Starts building a session under `key`.
    pub fn builder(key: SessionKey) -> (r: SessionBuilder<NoData>)
        ensures
            r.wf(),
            r.key_view() == key@,
    {
        SessionBuilder::new(key)
    }

    /// The session's key.
    pub fn key(&self) -> (r: &str)
        ensures
            r@ == self@.key,
    {
        self.key.as_str()
    }

    /// The value under `key` read as a `V`; `None` where it is missing or
    /// does not read as a `V`.
    pub fn get<V: FromJsonValue>(&self, key: &str) -> (r: Option<V>)
        requires
            self.wf(),
        ensures
            r == decoded_at::<V>(self@.data, key@),
    {
        match self.data.get(key) {
            Some(v) => V::from_json_value(v),
            None => None,
        }
    }

    /// The value under `key` read as a `V`, a missing value reading as null.
    pub fn try_get<V: FromJsonValue>(&self, key: &str) -> (r: Result<V, DecodeError>)
        requires
            self.wf(),
        ensures
            ({
                let stored = if self@.data.contains_key(key@) {
                    self@.data[key@]
                } else {
                    JsonValue::Null
                };
                match V::decoded(stored) {
                    Some(v) => r == Ok::<V, DecodeError>(v),
                    None => r == Err::<V, DecodeError>(DecodeError),
                }
            }),
    {
        let decoded = match self.data.get(key) {
            Some(v) => V::from_json_value(v),
            None => V::from_json_value(&JsonValue::Null),
        };
        match decoded {
            Some(v) => Ok(v),
            None => Err(DecodeError),
        }
    }

    /// The value under `key` read as a `V`, or `V::default()`.
    pub fn get_or_default<V: FromJsonValue + Default>(&self, key: &str) -> (r: V)
        requires
            self.wf(),
        ensures
            decoded_at::<V>(self@.data, key@).is_some() ==> r == decoded_at::<V>(self@.data, key@).unwrap(),
    {
        match self.get::<V>(key) {
            Some(v) => v,
            None => V::default(),
        }
    }

    /// The raw value under `key`.
    pub fn get_ref(&self, key: &str) -> (r: Option<&JsonValue>)
        requires
            self.wf(),
        ensures
            r == (if self@.data.contains_key(key@) {
                Some(&self@.data[key@])
            } else {
                None
            }),
    {
        self.data.get(key)
    }

    /// The text under `key`, if it is a string value.
    pub fn get_str(&self, key: &str) -> (r: Option<&str>)
        requires
            self.wf(),
        ensures
            r.is_some() == str_at(self@.data, key@).is_some(),
            r.is_some() ==> r.unwrap()@ == str_at(self@.data, key@).unwrap(),
    {
        match self.data.get(key) {
            Some(v) => v.as_str(),
            None => None,
        }
    }

    /// Stores `value` under `key`; the session is marked as changed.
    pub fn insert(self, key: &str, value: JsonValue) -> (r: Session)
        requires
            self.wf(),
        ensures
            r.wf(),
            r@ == (SessionView {
                key: self@.key,
                state: merged(self@.state, SessionState::Changed),
                data: self@.data.insert(key@, value),
            }),
    {
        let mut s = self;
        s.data.insert(key.to_owned(), value);
        s.state = s.state.transition(SessionState::Changed);
        s
    }

    /// The current lifecycle state.
    pub fn state(&self) -> (r: SessionState)
        ensures
            r == self@.state,
    {
        self.state
    }

    /// Asks for the session to move to a fresh key, keeping its data.
    pub fn regenerate(self) -> (r: Session)
        requires
            self.wf(),
        ensures
            r.wf(),
            r@ == (SessionView {
                key: self@.key,
                state: merged(self@.state, SessionState::Regenerated),
                data: self@.data,
            }),
    {
        let mut s = self;
        s.state = s.state.transition(SessionState::Regenerated);
        s
    }

    /// Drops all data and asks for the session to move to a fresh key.
    pub fn invalidate(self) -> (r: Session)
        requires
            self.wf(),
        ensures
            r.wf(),
            r@ == (SessionView {
                key: self@.key,
                state: merged(self@.state, SessionState::Invalidated),
                data: Map::empty(),
            }),
    {
        let mut s = self;
        s.data.clear();
        s.state = s.state.transition(SessionState::Invalidated);
        s
    }

    /// Whether a value is stored under `key`.
    pub fn has(&self, key: &str) -> (r: bool)
        requires
            self.wf(),
        ensures
            r == self@.data.contains_key(key@),
    {
        self.data.contains_key(key)
    }

    /// Adds 1 to the counter under `key` (see [`Session::increment_by`]).
    pub fn increment(self, key: &str) -> (r: Session)
        requires
            self.wf(),
        ensures
            r.wf(),
            r@ == (SessionView {
                key: self@.key,
                state: merged(self@.state, SessionState::Changed),
                data: counted(self@.data, key@, 1),
            }),
    {
        self.increment_by(key, 1)
    }

    /// Adds `incrementor` to the counter under `key`, which starts from 0
    /// where no `i32` is stored; the sum wraps at the ends of `i32`.
    pub fn increment_by(self, key: &str, incrementor: i32) -> (r: Session)
        requires
            self.wf(),
        ensures
            r.wf(),
            r@ == (SessionView {
                key: self@.key,
                state: merged(self@.state, SessionState::Changed),
                data: counted(self@.data, key@, incrementor),
            }),
    {
        let current: i32 = match self.get::<i32>(key) {
            Some(n) => n,
            None => 0,
        };
        let next = current.wrapping_add(incrementor);
        self.insert(key, JsonValue::Number(next as i64))
    }

    /// Subtracts 1 from the counter under `key`.
    pub fn decrement(self, key: &str) -> (r: Session)
        requires
            self.wf(),
        ensures
            r.wf(),
            r@ == (SessionView {
                key: self@.key,
                state: merged(self@.state, SessionState::Changed),
                data: counted(self@.data, key@, -1i32),
            }),
    {
        self.decrement_by(key, 1)
    }

    /// Adds the negation of `decrementor` (wrapping) to the counter under `key`.
    pub fn decrement_by(self, key: &str, decrementor: i32) -> (r: Session)
        requires
            self.wf(),
        ensures
            r.wf(),
            r@ == (SessionView {
                key: self@.key,
                state: merged(self@.state, SessionState::Changed),
                data: counted(self@.data, key@, 0i32.wrapping_sub(decrementor)),
            }),
    {
        self.increment_by(key, 0i32.wrapping_sub(decrementor))
    }

    /// Removes `key`; the session is marked as changed.
    pub fn remove(self, key: &str) -> (r: Session)
        requires
            self.wf(),
        ensures
            r.wf(),
            r@ == (SessionView {
                key: self@.key,
                state: merged(self@.state, SessionState::Changed),
                data: self@.data.remove(key@),
            }),
    {
        let mut s = self;
        let _ = s.data.remove(key);
        s.state = s.state.transition(SessionState::Changed);
        s
    }

    /// All of the session's data.
    pub fn all(&self) -> (r: &SessionData)
        requires
            self.wf(),
        ensures
            r.wf(),
            r@ == self@.data,
    {
        &self.data
    }

    /// The part of the data under the listed keys.
    pub fn only<'a>(&'a self, keys: &'a [&'a str]) -> (r: SessionSubset<'a>)
        requires
            self.wf(),
        ensures
            r.wf(),
            r.kind_view() == SessionSubsetKind::Only,
            r.names() == names_of(keys@),
            r.source() == self@,
            r@ == filtered(self@.data, SessionSubsetKind::Only, names_of(keys@)),
    {
        SessionSubset {
            data: &self.data,
            keys,
            kind: SessionSubsetKind::Only,
            state: self.state,
            session_key: &self.key,
        }
    }

    /// The part of the data under every key but the listed ones.
    pub fn except<'a>(&'a self, keys: &'a [&'a str]) -> (r: SessionSubset<'a>)
        requires
            self.wf(),
        ensures
            r.wf(),
            r.kind_view() == SessionSubsetKind::Except,
            r.names() == names_of(keys@),
            r.source() == self@,
            r@ == filtered(self@.data, SessionSubsetKind::Except, names_of(keys@)),
    {
        SessionSubset {
            data: &self.data,
            keys,
            kind: SessionSubsetKind::Except,
            session_key: &self.key,
            state: self.state,
        }
    }

    /// Removes `key` and hands back its value; the session is marked as changed.
    pub fn pull(self, key: &str) -> (r: (Session, Option<JsonValue>))
        requires
            self.wf(),
        ensures
            r.0.wf(),
            r.0@ == (SessionView {
                key: self@.key,
                state: merged(self@.state, SessionState::Changed),
                data: self@.data.remove(key@),
            }),
            r.1 == (if self@.data.contains_key(key@) {
                Some(self@.data[key@])
            } else {
                None
            }),
    {
        let mut s = self;
        let value = s.data.remove(key);
        s.state = s.state.transition(SessionState::Changed);
        (s, value)
    }

    /// Removes every listed key; the session is marked as changed.
    pub fn forget(self, keys: &[&str]) -> (r: Session)
        requires
            self.wf(),
        ensures
            r.wf(),
            r@ == (SessionView {
                key: self@.key,
                state: merged(self@.state, SessionState::Changed),
                data: self@.data.remove_keys(name_set(keys@)),
            }),
    {
        let mut s = self;
        let mut i: usize = 0;
        while i < keys.len()
            invariant
                i <= keys@.len(),
                s.wf(),
                s@.key == self@.key,
                s@.state == self@.state,
                s@.data == self@.data.remove_keys(name_set(keys@.take(i as int))),
            decreases keys@.len() - i,
        {
            let _ = s.data.remove(keys[i]);
            proof {
                assert(names_of(keys@.take(i + 1)) =~= names_of(keys@.take(i as int)).push(keys@[i as int]@));
                lemma_push_contains(names_of(keys@.take(i as int)), keys@[i as int]@, keys@[i as int]@);
            }
            i = i + 1;
            assert(s@.data =~= self@.data.remove_keys(name_set(keys@.take(i as int))));
        }
        assert(keys@.take(i as int) =~= keys@);
        s.state = s.state.transition(SessionState::Changed);
        s
    }

    /// Removes all data; the session is marked as changed.
    pub fn flush(self) -> (r: Session)
        requires
            self.wf(),
        ensures
            r.wf(),
            r@ == (SessionView {
                key: self@.key,
                state: merged(self@.state, SessionState::Changed),
                data: Map::empty(),
            }),
    {
        let mut s = self;
        s.data.clear();
        s.state = s.state.transition(SessionState::Changed);
        s
    }

    /// The session's token, if one is stored as a string.
    pub fn token(&self) -> (r: Option<&str>)
        requires
            self.wf(),
        ensures
            r.is_some() == str_at(self@.data, token_key()).is_some(),
            r.is_some() ==> r.unwrap()@ == str_at(self@.data, token_key()).unwrap(),
    {
        self.get_str("_token")
    }

    /// Replaces the token with a fresh random one; the session is marked as changed.
    pub fn regenerate_token(self) -> (r: Session)
        requires
            self.wf(),
        ensures
            r.wf(),
            r@.key == self@.key,
            r@.state == merged(self@.state, SessionState::Changed),
            token_refreshed(self@.data, r@.data),
    {
        let token = generate_random_key(TOKEN_LENGTH);
        let ghost t = token;
        proof {
            reveal_strlit("_token");
        }
        let r = self.insert("_token", JsonValue::String(token));
        assert(r@.data.remove(token_key()) =~= self@.data.remove(token_key()));
        r
    }

    /// The key, state and data, taken apart once the request is done.
    pub fn into_parts(self) -> (r: (SessionKey, SessionState, SessionData))
        requires
            self.wf(),
        ensures
            r.2.wf(),
            r.0@ == self@.key,
            r.1 == self@.state,
            r.2@ == self@.data,
    {
        (self.key, self.state, self.data)
    }
}

} // verus!
