//! The decisions around one request: which session it carries in, and how
//! the session is persisted when the response goes out.
use vstd::prelude::*;
use crate::driver::{MemoryDriver, KEY_LENGTH, fresh_record};
use crate::error::SessionError;
use crate::headers::{session_cookie, first_named, header_cookies, header_texts};
use crate::key::{SessionKey, is_token};
use crate::session::{Session, SessionData, SessionView, same_data, token_key, TOKEN_LENGTH};
use crate::state::SessionState;

verus! {

/// Where the session key travels.
#[derive(Debug, Clone)]
pub enum SessionKind {
    /// In the cookie with this name.
    Cookie(String),
}

impl SessionKind {
    /// The cookie named `id`.
    pub fn default_cookie() -> (r: SessionKind)
        ensures
            r is Cookie,
            r->Cookie_0@ == "id"@,
    {
        SessionKind::Cookie("id".to_owned())
    }
}

/// The session cookie of a response, as plain values to be encoded.
#[derive(Debug, Clone, PartialEq, Eq)]
pub struct SessionCookie {
    pub name: String,
    pub value: String,
    pub http_only: bool,
    pub max_age_secs: i64,
}

/// The largest `Max-Age` a cookie carries: the time to live, capped at the
/// largest `i64`.
pub open spec fn max_age_for(ttl_secs: u64) -> i64 {
    if ttl_secs <= i64::MAX as u64 {
        ttl_secs as i64
    } else {
        i64::MAX
    }
}

/// The cookie that carries `key` back to the client: named as configured,
/// `HttpOnly`, and living as long as the driver keeps the session.
pub fn session_set_cookie(kind: &SessionKind, key: &SessionKey, ttl_secs: u64) -> (r: SessionCookie)
    ensures
        r.name@ == (match kind {
            SessionKind::Cookie(n) => n@,
        }),
        r.value@ == key@,
        r.http_only,
        r.max_age_secs == max_age_for(ttl_secs),
{
    let name = match kind {
        SessionKind::Cookie(n) => n.clone(),
    };
    let max_age_secs: i64 = if ttl_secs <= i64::MAX as u64 {
        ttl_secs as i64
    } else {
        i64::MAX
    };
    SessionCookie { name, value: key.to_text(), http_only: true, max_age_secs }
}

/// The single driver operation that persists a session at the end of a
/// request.
#[derive(Debug, Clone, Copy, PartialEq, Eq, Structural)]
pub enum PersistAction {
    /// Nothing changed: keep the key, write nothing.
    Keep,
    /// Overwrite the record under the same key.
    Write,
    /// Move the data to a fresh key and drop the old record.
    Regenerate,
    /// Drop the old record and store the (cleared) data under a fresh key.
    Invalidate,
}

/// The operation that each final state calls for.
pub open spec fn action_for(state: SessionState) -> PersistAction {
    match state {
        SessionState::Unchanged => PersistAction::Keep,
        SessionState::Changed => PersistAction::Write,
        SessionState::Regenerated => PersistAction::Regenerate,
        SessionState::Invalidated => PersistAction::Invalidate,
    }
}

pub fn persistence_action(state: SessionState) -> (r: PersistAction)
    ensures
        r == action_for(state),
{
    match state {
        SessionState::Unchanged => PersistAction::Keep,
        SessionState::Changed => PersistAction::Write,
        SessionState::Regenerated => PersistAction::Regenerate,
        SessionState::Invalidated => PersistAction::Invalidate,
    }
}

/// The session key that a request carries, if any: the value of the first
/// cookie with the configured name.
pub fn incoming_key(headers: &[String], kind: &SessionKind) -> (r: Option<SessionKey>)
    ensures
        ({
            let name = match kind {
                SessionKind::Cookie(n) => n@,
            };
            let found = first_named(header_cookies(header_texts(headers@)), name);
            &&& r is None <==> found is None
            &&& r is Some ==> r->Some_0@ == found->Some_0.1
        }),
{
    let name = match kind {
        SessionKind::Cookie(n) => n.as_str(),
    };
    match session_cookie(headers, name) {
        Some(c) => Some(SessionKey::new(c.value())),
        None => None,
    }
}

/// Data that holds only a token of the usual length.
pub open spec fn token_only(data: Map<Seq<char>, crate::value::JsonValue>) -> bool {
    &&& data.dom() == set![token_key()]
    &&& data[token_key()] is String
    &&& is_token(data[token_key()]->String_0@, TOKEN_LENGTH as nat)
}

impl MemoryDriver {
    /// The session for a request: the stored one where the request carries a
    /// known key (the key is only read when there is one), else a fresh
    /// session holding only a token, stored under a fresh key.
    pub fn start_session(&mut self, key: Option<SessionKey>) -> (r: Result<Session, SessionError>)
        requires
            old(self).wf(),
        ensures
            final(self).wf(),
            final(self).ttl_secs() == old(self).ttl_secs(),
            r is Ok,
            r->Ok_0.wf(),
            key is Some && old(self).records().contains_key(key->Some_0@) ==> {
                &&& r->Ok_0@ == old(self).records()[key->Some_0@]
                &&& final(self).records() == old(self).records()
            },
            !(key is Some && old(self).records().contains_key(key->Some_0@)) ==> {
                &&& r->Ok_0@.state == SessionState::Unchanged
                &&& token_only(r->Ok_0@.data)
                &&& is_token(r->Ok_0@.key, KEY_LENGTH as nat)
                &&& final(self).records().contains_key(r->Ok_0@.key)
                &&& final(self).records() == old(self).records().insert(
                    r->Ok_0@.key,
                    final(self).records()[r->Ok_0@.key],
                )
                &&& final(self).records()[r->Ok_0@.key].key == r->Ok_0@.key
                &&& final(self).records()[r->Ok_0@.key].state == SessionState::Unchanged
                &&& same_data(r->Ok_0@.data, final(self).records()[r->Ok_0@.key].data)
            },
    {
        if let Some(k) = &key {
            if let Some(s) = self.read(k)? {
                return Ok(s);
            }
        }
        let data = SessionData::session();
        let stored = data.duplicate();
        let new_key = self.create(stored)?;
        Ok(Session::builder(new_key).with_data(data).build())
    }

    /// Persists the session at the end of a request with the one operation
    /// that its state calls for, and returns the key for the response.
    pub fn finish_session(&mut self, session: Session) -> (r: Result<SessionKey, SessionError>)
        requires
            old(self).wf(),
            session.wf(),
        ensures
            final(self).wf(),
            final(self).ttl_secs() == old(self).ttl_secs(),
            r is Ok,
            ({
                let v = session@;
                let k = r->Ok_0@;
                match action_for(v.state) {
                    PersistAction::Keep => k == v.key && final(self).records() == old(self).records(),
                    PersistAction::Write => k == v.key && final(self).records() == old(self).records().insert(
                        k,
                        fresh_record(k, v.data),
                    ),
                    PersistAction::Regenerate => is_token(k, KEY_LENGTH as nat) && k != v.key && final(self).records()
                        == old(self).records().insert(k, fresh_record(k, v.data)).remove(v.key),
                    PersistAction::Invalidate => is_token(k, KEY_LENGTH as nat) && k != v.key && final(self).records()
                        == old(self).records().remove(v.key).insert(k, fresh_record(k, v.data)),
                }
            }),
    {
        let (key, state, data) = session.into_parts();
        match persistence_action(state) {
            PersistAction::Keep => Ok(key),
            PersistAction::Write => self.write(key, data),
            PersistAction::Regenerate => self.regenerate(&key, data),
            PersistAction::Invalidate => self.invalidate(&key, data),
        }
    }
}

} // verus!
