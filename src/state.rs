//! The per-request lifecycle of a session.
use vstd::prelude::*;

verus! {

/// What happened to a session while one request was handled.
///
/// `Unchanged < Changed`, while `Regenerated` and `Invalidated` overwrite
/// whatever came before and are never downgraded by a later `Changed`.
#[derive(Debug, Clone, Copy, PartialEq, Eq, Structural)]
pub enum SessionState {
    /// The session is unchanged since it was loaded or created.
    Unchanged,
    /// The session's data has been modified.
    Changed,
    /// The session keeps its data under a fresh key.
    Regenerated,
    /// The session's data is dropped and it moves to a fresh key.
    Invalidated,
}

/// The merge rule: the state that results when `requested` is applied to
/// `current`.
pub open spec fn merged(current: SessionState, requested: SessionState) -> SessionState {
    match requested {
        SessionState::Invalidated => SessionState::Invalidated,
        SessionState::Regenerated => SessionState::Regenerated,
        SessionState::Changed => if current == SessionState::Unchanged {
            SessionState::Changed
        } else {
            current
        },
        SessionState::Unchanged => current,
    }
}

/// Rank in the order `Unchanged < Changed < {Regenerated, Invalidated}`.
pub open spec fn rank(s: SessionState) -> nat {
    match s {
        SessionState::Unchanged => 0,
        SessionState::Changed => 1,
        _ => 2,
    }
}

impl SessionState {
    /// Applies the merge rule to this state and a requested transition.
    pub fn transition(self, new_state: SessionState) -> (r: SessionState)
        ensures
            r == merged(self, new_state),
    {
        match new_state {
            SessionState::Invalidated => SessionState::Invalidated,
            SessionState::Regenerated => SessionState::Regenerated,
            SessionState::Changed => match self {
                SessionState::Unchanged => SessionState::Changed,
                _ => self,
            },
            SessionState::Unchanged => self,
        }
    }

    /// The lower-case name of the state (`"unchanged"`, `"changed"`, ...).
    pub fn as_str(&self) -> (r: &'static str)
        ensures
            *self == SessionState::Unchanged ==> r@ == "unchanged"@,
            *self == SessionState::Changed ==> r@ == "changed"@,
            *self == SessionState::Regenerated ==> r@ == "regenerated"@,
            *self == SessionState::Invalidated ==> r@ == "invalidated"@,
    {
        match self {
            SessionState::Unchanged => "unchanged",
            SessionState::Changed => "changed",
            SessionState::Regenerated => "regenerated",
            SessionState::Invalidated => "invalidated",
        }
    }
}

impl Default for SessionState {
    fn default() -> (r: SessionState)
        ensures
            r == SessionState::Unchanged,
    {
        SessionState::Unchanged
    }
}

/// Two transitions in a row follow the merge table: `Invalidated` and
/// `Regenerated` always win and the later of the two is kept, `Changed` only
/// lifts `Unchanged`, `Unchanged` changes nothing, and the rank never drops.
pub proof fn lemma_transition_composition(s: SessionState, t1: SessionState, t2: SessionState)
    ensures
        merged(merged(s, t1), t2) == (match t2 {
            SessionState::Invalidated => SessionState::Invalidated,
            SessionState::Regenerated => SessionState::Regenerated,
            SessionState::Changed => if merged(s, t1) == SessionState::Unchanged {
                SessionState::Changed
            } else {
                merged(s, t1)
            },
            SessionState::Unchanged => merged(s, t1),
        }),
        rank(s) <= rank(merged(s, t1)),
        rank(merged(s, t1)) <= rank(merged(merged(s, t1), t2)),
        (t1 == SessionState::Invalidated || t1 == SessionState::Regenerated) && t2
            == SessionState::Changed ==> merged(merged(s, t1), t2) == t1,
        merged(SessionState::Invalidated, SessionState::Changed) == SessionState::Invalidated,
        merged(SessionState::Changed, SessionState::Unchanged) == SessionState::Changed,
{
}

} // verus!
