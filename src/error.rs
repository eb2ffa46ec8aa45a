//! Errors of the storage layer.
use vstd::prelude::*;
use crate::key::SessionKey;

verus! {

/// The driver operation that failed.
#[derive(Debug, Clone, Copy, PartialEq, Eq, Structural)]
pub enum SessionErrorKind {
    Read,
    Write,
    Destroy,
    Regenerate,
    Invalidate,
}

impl SessionErrorKind {
    /// The operation's name, as used in messages.
    pub fn as_str(&self) -> (r: &'static str)
        ensures
            *self == SessionErrorKind::Read ==> r@ == "read"@,
            *self == SessionErrorKind::Write ==> r@ == "write"@,
            *self == SessionErrorKind::Destroy ==> r@ == "destroy"@,
            *self == SessionErrorKind::Regenerate ==> r@ == "regenerate"@,
            *self == SessionErrorKind::Invalidate ==> r@ == "invalidate"@,
    {
        match self {
            SessionErrorKind::Read => "read",
            SessionErrorKind::Write => "write",
            SessionErrorKind::Destroy => "destroy",
            SessionErrorKind::Regenerate => "regenerate",
            SessionErrorKind::Invalidate => "invalidate",
        }
    }
}

/// How a command sent to the remote store failed.
#[derive(Debug, Clone, Copy, PartialEq, Eq, Structural)]
pub enum CommandFailure {
    /// The connection dropped while the command was in flight.
    ConnectionDropped,
    /// The store answered with an error, or the transport failed otherwise.
    Failed,
}

/// An error of a storage driver.
#[derive(Debug)]
pub enum SessionError {
    /// Session data could not be encoded; the encoder's message.
    SerializeJson(String),
    /// Stored session data could not be decoded; the decoder's message.
    DeserializeJson(String),
    /// No connection could be taken from the pool; the pool's message.
    AcquireConnection(String),
    /// A command to the remote store failed: how, and the transport's message.
    CommandError(CommandFailure, String),
    /// An operation on the session under `key` failed.
    SessionKindError {
        source: Box<SessionError>,
        key: SessionKey,
        kind: SessionErrorKind,
    },
}

impl SessionError {
    /// Attaches the failing operation and the session's key to `source`.
    pub fn in_operation(source: SessionError, key: &SessionKey, kind: SessionErrorKind) -> (r: SessionError)
        ensures
            r is SessionKindError,
            r->SessionKindError_key@ == key@,
            r->SessionKindError_kind == kind,
            *r->SessionKindError_source == source,
    {
        SessionError::SessionKindError { source: Box::new(source), key: key.duplicate(), kind }
    }
}

/// The host did not install a session before the handler ran.
#[derive(Debug, Clone, Copy, PartialEq, Eq, Structural)]
pub struct MissingSessionExtension;

impl MissingSessionExtension {
    pub fn message(&self) -> (r: &'static str)
        ensures
            r@ == "Session extension is missing"@,
    {
        "Session extension is missing"
    }
}

} // verus!
