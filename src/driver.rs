//! Storage drivers that keep sessions in this process.
use vstd::prelude::*;
use crate::error::SessionError;
use crate::key::{SessionKey, fresh_key, generate_random_key, is_token};
use crate::session::{Session, SessionData, SessionView};
use crate::state::SessionState;
use crate::textmap::TextMap;

verus! {

pub use crate::key::KEY_LENGTH;

/// Time to live of the in-memory driver, in seconds (two hours).
pub const MEMORY_TTL_SECS: u64 = 7200;

#[verifier::external_type_specification]
#[verifier::external_body]
#[verifier::reject_recursive_types(K)]
#[verifier::reject_recursive_types(V)]
#[verifier::reject_recursive_types(S)]
pub struct ExDashMap<K, V, S>(dashmap::DashMap<K, V, S>);

/// The concurrent map that holds sessions by key.
pub type SessionTable = dashmap::DashMap<String, Session>;

/// The sessions that a concurrent map holds, by key.
pub uninterp spec fn stored_sessions(m: SessionTable) -> Map<Seq<char>, Session>;

/// Relies on `DashMap::new`: the new map is empty.
#[verifier::external_body]
fn sessions_new() -> (r: SessionTable)
    ensures
        forall|k: Seq<char>| !stored_sessions(r).contains_key(k),
{
    dashmap::DashMap::new()
}

/// Relies on `DashMap::get`: the entry under `key`, if any, copied out.
#[verifier::external_body]
fn sessions_get(m: &SessionTable, key: &str) -> (r: Option<Session>)
    ensures
        r == (if stored_sessions(*m).contains_key(key@) {
            Some(stored_sessions(*m)[key@])
        } else {
            None
        }),
{
    m.get(key).map(|entry| entry.value().clone())
}

/// Relies on `DashMap::insert`: `value` replaces whatever `key` held.
#[verifier::external_body]
fn sessions_insert(m: &mut SessionTable, key: String, value: Session)
    ensures
        stored_sessions(*final(m)) == stored_sessions(*old(m)).insert(key@, value),
{
    m.insert(key, value);
}

/// Relies on `DashMap::remove`: `key` no longer has an entry.
#[verifier::external_body]
fn sessions_remove(m: &mut SessionTable, key: &str)
    ensures
        stored_sessions(*final(m)) == stored_sessions(*old(m)).remove(key@),
{
    m.remove(key);
}

/// The record that writing `data` under `key` stores.
pub open spec fn fresh_record(key: Seq<char>, data: Map<Seq<char>, crate::value::JsonValue>) -> SessionView {
    SessionView { key, state: SessionState::Unchanged, data }
}

/// Keeps sessions in a concurrent map in this process.
///
/// The time to live is recorded and reported but not enforced: entries stay
/// until they are destroyed or the process ends.
#[derive(Debug)]
pub struct MemoryDriver {
    sessions: SessionTable,
    ttl: u64,
}

impl MemoryDriver {
    /// The stored records, by key.
    pub closed spec fn records(&self) -> Map<Seq<char>, SessionView> {
        Map::new(
            |k: Seq<char>| stored_sessions(self.sessions).contains_key(k),
            |k: Seq<char>| stored_sessions(self.sessions)[k]@,
        )
    }

    pub closed spec fn wf(&self) -> bool {
        forall|k: Seq<char>| #[trigger] stored_sessions(self.sessions).contains_key(k)
            ==> stored_sessions(self.sessions)[k].wf()
    }

    pub closed spec fn ttl_secs(&self) -> u64 {
        self.ttl
    }

    /// An empty driver with a two-hour time to live.
    pub fn new() -> (r: MemoryDriver)
        ensures
            r.wf(),
            r.records() == Map::<Seq<char>, SessionView>::empty(),
            r.ttl_secs() == MEMORY_TTL_SECS,
    {
        let r = MemoryDriver { sessions: sessions_new(), ttl: MEMORY_TTL_SECS };
        assert(r.records() =~= Map::<Seq<char>, SessionView>::empty());
        r
    }

    /// An empty driver with the given time to live, in seconds.
    pub fn with_ttl(ttl: u64) -> (r: MemoryDriver)
        ensures
            r.wf(),
            r.records() == Map::<Seq<char>, SessionView>::empty(),
            r.ttl_secs() == ttl,
    {
        let r = MemoryDriver { sessions: sessions_new(), ttl };
        assert(r.records() =~= Map::<Seq<char>, SessionView>::empty());
        r
    }

    /// The session stored under `key`, if any.
    pub fn read(&self, key: &SessionKey) -> (r: Result<Option<Session>, SessionError>)
        requires
            self.wf(),
        ensures
            r is Ok,
            r->Ok_0 is Some <==> self.records().contains_key(key@),
            r->Ok_0 is Some ==> r->Ok_0->Some_0.wf() && r->Ok_0->Some_0@ == self.records()[key@],
    {
        Ok(sessions_get(&self.sessions, key.as_str()))
    }

    /// Stores `data` under `key`, replacing any earlier record.
    pub fn write(&mut self, key: SessionKey, data: SessionData) -> (r: Result<SessionKey, SessionError>)
        requires
            old(self).wf(),
            data.wf(),
        ensures
            final(self).wf(),
            final(self).ttl_secs() == old(self).ttl_secs(),
            r is Ok,
            r->Ok_0@ == key@,
            final(self).records() == old(self).records().insert(key@, fresh_record(key@, data@)),
    {
        let text = key.to_text();
        let session = Session::builder(key.duplicate()).with_data(data).build();
        sessions_insert(&mut self.sessions, text, session);
        assert(self.records() =~= old(self).records().insert(key@, fresh_record(key@, data@)));
        Ok(key)
    }

    /// Removes the record under `key`; a missing record is no error.
    pub fn destroy(&mut self, key: &SessionKey) -> (r: Result<(), SessionError>)
        requires
            old(self).wf(),
        ensures
            final(self).wf(),
            final(self).ttl_secs() == old(self).ttl_secs(),
            r is Ok,
            final(self).records() == old(self).records().remove(key@),
    {
        sessions_remove(&mut self.sessions, key.as_str());
        assert(self.records() =~= old(self).records().remove(key@));
        Ok(())
    }

    /// The time to live applied to every record, in seconds.
    pub fn ttl(&self) -> (r: u64)
        ensures
            r == self.ttl_secs(),
    {
        self.ttl
    }

    /// Stores `data` under a fresh random key and returns the key.
    pub fn create(&mut self, data: SessionData) -> (r: Result<SessionKey, SessionError>)
        requires
            old(self).wf(),
            data.wf(),
        ensures
            final(self).wf(),
            final(self).ttl_secs() == old(self).ttl_secs(),
            r is Ok,
            is_token(r->Ok_0@, KEY_LENGTH as nat),
            final(self).records() == old(self).records().insert(r->Ok_0@, fresh_record(r->Ok_0@, data@)),
    {
        let key = SessionKey::from_string(generate_random_key(KEY_LENGTH));
        self.write(key, data)
    }

    /// Stores empty data under a fresh random key.
    pub fn init(&mut self) -> (r: Result<SessionKey, SessionError>)
        requires
            old(self).wf(),
        ensures
            final(self).wf(),
            final(self).ttl_secs() == old(self).ttl_secs(),
            r is Ok,
            is_token(r->Ok_0@, KEY_LENGTH as nat),
            final(self).records() == old(self).records().insert(
                r->Ok_0@,
                fresh_record(r->Ok_0@, Map::empty()),
            ),
    {
        self.create(TextMap::new())
    }

    /// Moves `data` to a fresh key: the new record is stored, then the old
    /// one removed.
    pub fn regenerate(&mut self, key: &SessionKey, data: SessionData) -> (r: Result<SessionKey, SessionError>)
        requires
            old(self).wf(),
            data.wf(),
        ensures
            final(self).wf(),
            final(self).ttl_secs() == old(self).ttl_secs(),
            r is Ok,
            is_token(r->Ok_0@, KEY_LENGTH as nat),
            r->Ok_0@ != key@,
            final(self).records() == old(self).records().insert(
                r->Ok_0@,
                fresh_record(r->Ok_0@, data@),
            ).remove(key@),
    {
        let new_key = self.write(fresh_key(key), data)?;
        self.destroy(key)?;
        Ok(new_key)
    }

    /// Removes the old record, then stores `data` under a fresh key.
    pub fn invalidate(&mut self, key: &SessionKey, data: SessionData) -> (r: Result<SessionKey, SessionError>)
        requires
            old(self).wf(),
            data.wf(),
        ensures
            final(self).wf(),
            final(self).ttl_secs() == old(self).ttl_secs(),
            r is Ok,
            is_token(r->Ok_0@, KEY_LENGTH as nat),
            r->Ok_0@ != key@,
            final(self).records() == old(self).records().remove(key@).insert(
                r->Ok_0@,
                fresh_record(r->Ok_0@, data@),
            ),
    {
        self.destroy(key)?;
        self.write(fresh_key(key), data)
    }
}

/// A driver that stores nothing: every read finds an empty session and every
/// write or removal succeeds without effect.
#[derive(Debug, Clone, Copy, PartialEq, Eq, Structural)]
pub struct NullDriver {}

impl NullDriver {
    pub fn new() -> (r: NullDriver) {
        NullDriver {}
    }

    /// A fresh, unchanged, empty session under `key`.
    pub fn read(&self, key: &SessionKey) -> (r: Result<Option<Session>, SessionError>)
        ensures
            r is Ok,
            r->Ok_0 is Some,
            r->Ok_0->Some_0.wf(),
            r->Ok_0->Some_0@ == fresh_record(key@, Map::empty()),
    {
        Ok(Some(Session::builder(key.duplicate()).with_data(TextMap::new()).build()))
    }

    /// Hands `key` back; nothing is stored.
    pub fn write(&self, key: SessionKey, data: SessionData) -> (r: Result<SessionKey, SessionError>)
        ensures
            r is Ok,
            r->Ok_0@ == key@,
    {
        Ok(key)
    }

    /// Does nothing.
    pub fn destroy(&self, key: &SessionKey) -> (r: Result<(), SessionError>)
        ensures
            r is Ok,
    {
        Ok(())
    }

    /// Zero: nothing is kept.
    pub fn ttl(&self) -> (r: u64)
        ensures
            r == 0,
    {
        0
    }

    /// A fresh random key; nothing is stored.
    pub fn create(&self, data: SessionData) -> (r: Result<SessionKey, SessionError>)
        ensures
            r is Ok,
            is_token(r->Ok_0@, KEY_LENGTH as nat),
    {
        let key = SessionKey::from_string(generate_random_key(KEY_LENGTH));
        self.write(key, data)
    }

    /// A fresh random key; nothing is stored.
    pub fn init(&self) -> (r: Result<SessionKey, SessionError>)
        ensures
            r is Ok,
            is_token(r->Ok_0@, KEY_LENGTH as nat),
    {
        self.create(TextMap::new())
    }

    /// A fresh random key other than `key`; nothing is stored or removed.
    pub fn regenerate(&self, key: &SessionKey, data: SessionData) -> (r: Result<SessionKey, SessionError>)
        ensures
            r is Ok,
            is_token(r->Ok_0@, KEY_LENGTH as nat),
            r->Ok_0@ != key@,
    {
        let new_key = self.write(fresh_key(key), data)?;
        self.destroy(key)?;
        Ok(new_key)
    }

    /// A fresh random key other than `key`; nothing is stored or removed.
    pub fn invalidate(&self, key: &SessionKey, data: SessionData) -> (r: Result<SessionKey, SessionError>)
        ensures
            r is Ok,
            is_token(r->Ok_0@, KEY_LENGTH as nat),
            r->Ok_0@ != key@,
    {
        self.destroy(key)?;
        self.write(fresh_key(key), data)
    }
}

/// Destroying a key twice: the second removal succeeds (as every removal
/// does) and leaves the records as the first one left them, without the key.
pub proof fn lemma_destroy_idempotent(
    first: MemoryDriver,
    second: MemoryDriver,
    third: MemoryDriver,
    key: Seq<char>,
)
    requires
        second.records() == first.records().remove(key),
        third.records() == second.records().remove(key),
    ensures
        third.records() == second.records(),
        !third.records().contains_key(key),
{
    assert(third.records() =~= second.records());
}

/// After a regeneration from `old_key` to `new_key`, the old key reads as
/// nothing and the new key reads back exactly the data that was handed in.
pub proof fn lemma_regenerate_moves_data(
    before: MemoryDriver,
    after: MemoryDriver,
    old_key: Seq<char>,
    new_key: Seq<char>,
    data: Map<Seq<char>, crate::value::JsonValue>,
)
    requires
        after.records() == before.records().insert(new_key, fresh_record(new_key, data)).remove(old_key),
        new_key != old_key,
    ensures
        !after.records().contains_key(old_key),
        after.records().contains_key(new_key),
        after.records()[new_key].data == data,
        after.records()[new_key].key == new_key,
{
}

/// After an invalidation from `old_key` to `new_key`, the old key reads as
/// nothing and the new key reads back the data that was handed in.
pub proof fn lemma_invalidate_moves_data(
    before: MemoryDriver,
    after: MemoryDriver,
    old_key: Seq<char>,
    new_key: Seq<char>,
    data: Map<Seq<char>, crate::value::JsonValue>,
)
    requires
        after.records() == before.records().remove(old_key).insert(new_key, fresh_record(new_key, data)),
        new_key != old_key,
    ensures
        !after.records().contains_key(old_key),
        after.records().contains_key(new_key),
        after.records()[new_key].data == data,
{
}

} // verus!
