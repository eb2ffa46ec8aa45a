//! What the remote (Redis) driver sends, and when it retries.
//!
//! The commands are built here as plain values; the driver around them sends
//! each command or batch and reports back how the attempt went.
use vstd::prelude::*;
use vstd::string::StringExecFns;
use crate::error::CommandFailure;
use crate::key::{SessionKey, KEY_LENGTH, fresh_key, is_token};

verus! {

/// Default time to live of remote records, in seconds (120 hours).
pub const REDIS_DEFAULT_TTL_SECS: u64 = 432000;

/// The key under which a session is stored: the prefix, if any, then the
/// session key.
pub open spec fn prefixed(prefix: Option<Seq<char>>, key: Seq<char>) -> Seq<char> {
    match prefix {
        Some(p) => p + key,
        None => key,
    }
}

/// One command to the store.
#[derive(Debug, Clone, PartialEq, Eq)]
pub enum RedisOp {
    /// Read `key` and reset its expiry to `ttl` seconds.
    GetEx { key: String, ttl: u64 },
    /// Store `value` under `key`, expiring after `ttl` seconds.
    SetEx { key: String, value: String, ttl: u64 },
    /// Delete `key`.
    Del { key: String },
}

/// The records after `op` ran on `store` (expiry is not modelled).
pub open spec fn apply_op(store: Map<Seq<char>, Seq<char>>, op: RedisOp) -> Map<Seq<char>, Seq<char>> {
    match op {
        RedisOp::GetEx { .. } => store,
        RedisOp::SetEx { key, value, .. } => store.insert(key@, value@),
        RedisOp::Del { key } => store.remove(key@),
    }
}

/// The records after a batch ran in order.
pub open spec fn apply_ops(store: Map<Seq<char>, Seq<char>>, ops: Seq<RedisOp>) -> Map<Seq<char>, Seq<char>>
    decreases ops.len(),
{
    if ops.len() == 0 {
        store
    } else {
        apply_ops(apply_op(store, ops[0]), ops.drop_first())
    }
}

/// Where and for how long the remote driver stores sessions.
#[derive(Debug, Clone)]
pub struct RedisKeyspace {
    ttl: u64,
    prefix: Option<String>,
}

impl RedisKeyspace {
    pub closed spec fn ttl_secs(&self) -> u64 {
        self.ttl
    }

    pub closed spec fn prefix_view(&self) -> Option<Seq<char>> {
        match self.prefix {
            Some(p) => Some(p@),
            None => None,
        }
    }

    /// No prefix and the given time to live.
    pub fn new(ttl: u64) -> (r: RedisKeyspace)
        ensures
            r.ttl_secs() == ttl,
            r.prefix_view() == None::<Seq<char>>,
    {
        RedisKeyspace { ttl, prefix: None }
    }

    /// Prepends `prefix` to every stored key.
    pub fn with_prefix(self, prefix: &str) -> (r: RedisKeyspace)
        ensures
            r.ttl_secs() == self.ttl_secs(),
            r.prefix_view() == Some(prefix@),
    {
        RedisKeyspace { ttl: self.ttl, prefix: Some(prefix.to_owned()) }
    }

    /// Uses `ttl` seconds as the time to live.
    pub fn with_ttl(self, ttl: u64) -> (r: RedisKeyspace)
        ensures
            r.ttl_secs() == ttl,
            r.prefix_view() == self.prefix_view(),
    {
        RedisKeyspace { ttl, prefix: self.prefix }
    }

    pub fn ttl(&self) -> (r: u64)
        ensures
            r == self.ttl_secs(),
    {
        self.ttl
    }

    /// The stored key of the session under `key`.
    pub fn prefixed_key(&self, key: &str) -> (r: String)
        ensures
            r@ == prefixed(self.prefix_view(), key@),
    {
        match &self.prefix {
            Some(p) => p.clone().concat(key),
            None => key.to_owned(),
        }
    }

    /// Reads a session and refreshes its expiry.
    pub fn read_command(&self, key: &SessionKey) -> (r: RedisOp)
        ensures
            r is GetEx,
            r->GetEx_key@ == prefixed(self.prefix_view(), key@),
            r->GetEx_ttl == self.ttl_secs(),
    {
        RedisOp::GetEx { key: self.prefixed_key(key.as_str()), ttl: self.ttl }
    }

    /// Stores encoded session data under `key`.
    pub fn write_command(&self, key: &SessionKey, payload: String) -> (r: RedisOp)
        ensures
            r is SetEx,
            r->SetEx_key@ == prefixed(self.prefix_view(), key@),
            r->SetEx_value@ == payload@,
            r->SetEx_ttl == self.ttl_secs(),
    {
        RedisOp::SetEx { key: self.prefixed_key(key.as_str()), value: payload, ttl: self.ttl }
    }

    /// Deletes the session under `key`.
    pub fn destroy_command(&self, key: &SessionKey) -> (r: RedisOp)
        ensures
            r is Del,
            r->Del_key@ == prefixed(self.prefix_view(), key@),
    {
        RedisOp::Del { key: self.prefixed_key(key.as_str()) }
    }

    /// The batch of a regeneration: store under the new key, then delete the
    /// old one, sent in one round trip.
    pub fn regenerate_batch(&self, old_key: &SessionKey, new_key: &SessionKey, payload: String) -> (r: Vec<RedisOp>)
        ensures
            r@.len() == 2,
            r@[0] is SetEx,
            r@[0]->SetEx_key@ == prefixed(self.prefix_view(), new_key@),
            r@[0]->SetEx_value@ == payload@,
            r@[0]->SetEx_ttl == self.ttl_secs(),
            r@[1] is Del,
            r@[1]->Del_key@ == prefixed(self.prefix_view(), old_key@),
    {
        let mut batch = Vec::new();
        batch.push(self.write_command(new_key, payload));
        batch.push(self.destroy_command(old_key));
        batch
    }

    /// The batch of an invalidation: delete the old key, then store under the
    /// new one, sent in one round trip.
    pub fn invalidate_batch(&self, old_key: &SessionKey, new_key: &SessionKey, payload: String) -> (r: Vec<RedisOp>)
        ensures
            r@.len() == 2,
            r@[0] is Del,
            r@[0]->Del_key@ == prefixed(self.prefix_view(), old_key@),
            r@[1] is SetEx,
            r@[1]->SetEx_key@ == prefixed(self.prefix_view(), new_key@),
            r@[1]->SetEx_value@ == payload@,
            r@[1]->SetEx_ttl == self.ttl_secs(),
    {
        let mut batch = Vec::new();
        batch.push(self.destroy_command(old_key));
        batch.push(self.write_command(new_key, payload));
        batch
    }
}

impl RedisKeyspace {
    /// A regeneration: a fresh key other than `old_key`, and the batch that
    /// stores `payload` under it and then deletes the old key.
    pub fn regenerate_plan(&self, old_key: &SessionKey, payload: String) -> (r: (SessionKey, Vec<RedisOp>))
        ensures
            is_token(r.0@, KEY_LENGTH as nat),
            r.0@ != old_key@,
            r.1@.len() == 2,
            r.1@[0] is SetEx,
            r.1@[0]->SetEx_key@ == prefixed(self.prefix_view(), r.0@),
            r.1@[0]->SetEx_value@ == payload@,
            r.1@[0]->SetEx_ttl == self.ttl_secs(),
            r.1@[1] is Del,
            r.1@[1]->Del_key@ == prefixed(self.prefix_view(), old_key@),
    {
        let new_key = fresh_key(old_key);
        let batch = self.regenerate_batch(old_key, &new_key, payload);
        (new_key, batch)
    }

    /// An invalidation: a fresh key other than `old_key`, and the batch that
    /// deletes the old key and then stores `payload` under the new one.
    pub fn invalidate_plan(&self, old_key: &SessionKey, payload: String) -> (r: (SessionKey, Vec<RedisOp>))
        ensures
            is_token(r.0@, KEY_LENGTH as nat),
            r.0@ != old_key@,
            r.1@.len() == 2,
            r.1@[0] is Del,
            r.1@[0]->Del_key@ == prefixed(self.prefix_view(), old_key@),
            r.1@[1] is SetEx,
            r.1@[1]->SetEx_key@ == prefixed(self.prefix_view(), r.0@),
            r.1@[1]->SetEx_value@ == payload@,
            r.1@[1]->SetEx_ttl == self.ttl_secs(),
    {
        let new_key = fresh_key(old_key);
        let batch = self.invalidate_batch(old_key, &new_key, payload);
        (new_key, batch)
    }
}

/// How one attempt at a command went.
#[derive(Debug, Clone, Copy, PartialEq, Eq, Structural)]
pub enum QueryOutcome {
    Success,
    Failure(CommandFailure),
}

/// What to do after an attempt.
#[derive(Debug, Clone, Copy, PartialEq, Eq, Structural)]
pub enum RetryStep {
    /// The command succeeded: hand its reply back.
    Done,
    /// The connection dropped: send the same command once more.
    Retry,
    /// Give up and report this failure.
    Surface(CommandFailure),
}

/// The retry rule: a dropped connection is retried once; any other failure,
/// or a second drop, is reported.
pub open spec fn next_step(retried: bool, outcome: QueryOutcome) -> RetryStep {
    match outcome {
        QueryOutcome::Success => RetryStep::Done,
        QueryOutcome::Failure(CommandFailure::ConnectionDropped) => if retried {
            RetryStep::Surface(CommandFailure::ConnectionDropped)
        } else {
            RetryStep::Retry
        },
        QueryOutcome::Failure(f) => RetryStep::Surface(f),
    }
}

/// The state of the retry loop around one command.
#[derive(Debug, Clone, Copy, PartialEq, Eq, Structural)]
pub struct RetryState {
    retried: bool,
}

impl RetryState {
    pub closed spec fn has_retried(&self) -> bool {
        self.retried
    }

    /// Before the first attempt.
    pub fn new() -> (r: RetryState)
        ensures
            !r.has_retried(),
    {
        RetryState { retried: false }
    }

    /// Decides what follows an attempt and records a retry.
    pub fn step(&mut self, outcome: QueryOutcome) -> (r: RetryStep)
        ensures
            r == next_step(old(self).has_retried(), outcome),
            final(self).has_retried() == (old(self).has_retried() || r == RetryStep::Retry),
    {
        match outcome {
            QueryOutcome::Success => RetryStep::Done,
            QueryOutcome::Failure(CommandFailure::ConnectionDropped) => {
                if self.retried {
                    RetryStep::Surface(CommandFailure::ConnectionDropped)
                } else {
                    self.retried = true;
                    RetryStep::Retry
                }
            },
            QueryOutcome::Failure(f) => RetryStep::Surface(f),
        }
    }
}

/// The steps that a run of the loop takes on a sequence of outcomes, until it
/// stops or the outcomes run out.
pub open spec fn run_steps(retried: bool, outcomes: Seq<QueryOutcome>) -> Seq<RetryStep>
    decreases outcomes.len(),
{
    if outcomes.len() == 0 {
        Seq::empty()
    } else {
        let s = next_step(retried, outcomes[0]);
        if s == RetryStep::Retry {
            seq![s] + run_steps(true, outcomes.drop_first())
        } else {
            seq![s]
        }
    }
}

/// The loop makes at most two attempts, and retries at most once, whatever
/// the outcomes are.
pub proof fn lemma_at_most_two_attempts(outcomes: Seq<QueryOutcome>)
    ensures
        run_steps(false, outcomes).len() <= 2,
        run_steps(true, outcomes).len() <= 1,
{
    if outcomes.len() > 0 {
        assert(run_steps(true, outcomes.drop_first()).len() <= 1) by {
            let rest = outcomes.drop_first();
            if rest.len() > 0 {
                assert(next_step(true, rest[0]) != RetryStep::Retry);
            }
        }
    }
}

pub proof fn lemma_prefixed_injective(prefix: Option<Seq<char>>, a: Seq<char>, b: Seq<char>)
    ensures
        prefixed(prefix, a) == prefixed(prefix, b) <==> a == b,
{
    if let Some(p) = prefix {
        if p + a == p + b {
            assert(a =~= (p + a).subrange(p.len() as int, (p + a).len() as int));
            assert(b =~= (p + b).subrange(p.len() as int, (p + b).len() as int));
        }
    }
}

proof fn lemma_apply_pair(store: Map<Seq<char>, Seq<char>>, batch: Seq<RedisOp>)
    requires
        batch.len() == 2,
    ensures
        apply_ops(store, batch) == apply_op(apply_op(store, batch[0]), batch[1]),
{
    let rest = batch.drop_first();
    let s1 = apply_op(store, batch[0]);
    let s2 = apply_op(s1, rest[0]);
    assert(rest[0] == batch[1]);
    assert(rest.drop_first().len() == 0);
    assert(apply_ops(s2, rest.drop_first()) == s2);
    assert(apply_ops(s1, rest) == apply_ops(s2, rest.drop_first()));
    assert(apply_ops(store, batch) == apply_ops(s1, rest));
}

/// A regeneration batch, sent once or retried once after a dropped
/// connection, leaves no record under the old key and the encoded data under
/// the new one.
pub proof fn lemma_regenerate_batch_moves_data(
    store: Map<Seq<char>, Seq<char>>,
    prefix: Option<Seq<char>>,
    old_key: Seq<char>,
    new_key: Seq<char>,
    batch: Seq<RedisOp>,
    payload: Seq<char>,
)
    requires
        batch.len() == 2,
        batch[0] is SetEx,
        batch[0]->SetEx_key@ == prefixed(prefix, new_key),
        batch[0]->SetEx_value@ == payload,
        batch[1] is Del,
        batch[1]->Del_key@ == prefixed(prefix, old_key),
        new_key != old_key,
    ensures
        !apply_ops(store, batch).contains_key(prefixed(prefix, old_key)),
        apply_ops(store, batch).contains_key(prefixed(prefix, new_key)),
        apply_ops(store, batch)[prefixed(prefix, new_key)] == payload,
        run_steps(false, seq![QueryOutcome::Success]) == seq![RetryStep::Done],
        run_steps(false, seq![QueryOutcome::Failure(CommandFailure::ConnectionDropped), QueryOutcome::Success])
            == seq![RetryStep::Retry, RetryStep::Done],
{
    lemma_prefixed_injective(prefix, old_key, new_key);
    lemma_apply_pair(store, batch);
    let two = seq![QueryOutcome::Failure(CommandFailure::ConnectionDropped), QueryOutcome::Success];
    assert(two.drop_first() =~= seq![QueryOutcome::Success]);
    assert(seq![QueryOutcome::Success].drop_first().len() == 0);
    assert(run_steps(true, seq![QueryOutcome::Success]) =~= seq![RetryStep::Done]);
    assert(run_steps(false, two) =~= seq![RetryStep::Retry, RetryStep::Done]);
}

/// An invalidation batch leaves no record under the old key and the encoded
/// data under the new one.
pub proof fn lemma_invalidate_batch_moves_data(
    store: Map<Seq<char>, Seq<char>>,
    prefix: Option<Seq<char>>,
    old_key: Seq<char>,
    new_key: Seq<char>,
    batch: Seq<RedisOp>,
    payload: Seq<char>,
)
    requires
        batch.len() == 2,
        batch[0] is Del,
        batch[0]->Del_key@ == prefixed(prefix, old_key),
        batch[1] is SetEx,
        batch[1]->SetEx_key@ == prefixed(prefix, new_key),
        batch[1]->SetEx_value@ == payload,
        new_key != old_key,
    ensures
        !apply_ops(store, batch).contains_key(prefixed(prefix, old_key)),
        apply_ops(store, batch).contains_key(prefixed(prefix, new_key)),
        apply_ops(store, batch)[prefixed(prefix, new_key)] == payload,
{
    lemma_prefixed_injective(prefix, old_key, new_key);
    lemma_apply_pair(store, batch);
}

/// Deleting a key twice leaves the store as deleting it once did.
pub proof fn lemma_delete_twice(store: Map<Seq<char>, Seq<char>>, op: RedisOp)
    requires
        op is Del,
    ensures
        apply_ops(store, seq![op, op]) == apply_op(store, op),
        !apply_op(store, op).contains_key(op->Del_key@),
{
    let two = seq![op, op];
    lemma_apply_pair(store, two);
    assert(apply_op(apply_op(store, op), op) =~= apply_op(store, op));
}

} // verus!
