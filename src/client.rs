//! The self-healing upstream client's decisions: the versioned connection
//! holder shared by queries and the reconnection task, the per-query retry
//! policy, the reconnection backoff and the classification of connection
//! errors.  The caller owns the connection, the timers and the channels.
use vstd::prelude::*;
use vstd::arithmetic::power2::{pow2, lemma2_to64, lemma_pow2_strictly_increases};

verus! {

/// Attempts one query may make, its first included.
pub const QUERY_MAX_ATTEMPTS: u32 = 6;

/// Delay before a query's first retry, in milliseconds.
pub const QUERY_INITIAL_DELAY_MS: u64 = 200;

/// Ceiling of the delay between a query's retries, in milliseconds.
pub const QUERY_MAX_DELAY_MS: u64 = 600;

/// Time one query attempt may take before it counts as failed, in
/// milliseconds.
pub const QUERY_TIMEOUT_MS: u64 = 3000;

/// Connection attempts one reconnection run may make.
pub const RECONNECT_MAX_ATTEMPTS: u32 = 5;

/// Delay after a reconnection run's first failure, in milliseconds.
pub const RECONNECT_INITIAL_DELAY_MS: u64 = 300;

/// Ceiling of the delay between connection attempts, in milliseconds.
pub const RECONNECT_MAX_DELAY_MS: u64 = 5000;

/// The OS error code of an unreachable network (ENETUNREACH).
pub const ENETUNREACH: i32 = 51;

/// The slot that carries the upstream's current connection, if any, and a
/// generation counter that grows with every change of the slot.
pub struct ClientHolder<C> {
    pub client: Option<C>,
    pub version: u64,
}

/// One change of a holder: the version never goes down, and it grows by one
/// exactly when the slot changes.
pub open spec fn holder_step<C>(a: ClientHolder<C>, b: ClientHolder<C>) -> bool {
    ||| b == a
    ||| b.version == a.version + 1
}

/// Along any run of holder changes the version never goes down, and it is
/// strictly larger at the end of any stretch in which the slot changed.
pub proof fn lemma_versions_monotone<C>(run: Seq<ClientHolder<C>>, i: int, j: int)
    requires
        forall|k: int| 0 <= k < run.len() - 1 ==> holder_step(#[trigger] run[k], run[k + 1]),
        0 <= i <= j < run.len(),
    ensures
        run[i].version <= run[j].version,
        run[i] != run[j] ==> run[i].version < run[j].version,
    decreases j - i,
{
    if i < j {
        assert(holder_step(run[j - 1], run[j]));
        lemma_versions_monotone(run, i, j - 1);
    }
}

impl<C> ClientHolder<C> {
    /// An empty slot at version zero.
    pub fn new() -> (r: Self)
        ensures
            r.client is None,
            r.version == 0,
    {
        ClientHolder { client: None, version: 0 }
    }

    /// Whether the slot holds a connection.
    pub fn is_connected(&self) -> (r: bool)
        ensures
            r == self.client is Some,
    {
        self.client.is_some()
    }

    /// Empties the slot after a failed query, but only when it still holds
    /// the generation the query observed: a newer connection is never
    /// dropped because of a query that used an older one.
    pub fn invalidate(&mut self, observed: u64) -> (changed: bool)
        requires
            old(self).version < u64::MAX,
        ensures
            changed == (old(self).version == observed),
            changed ==> final(self).client is None && final(self).version == old(self).version + 1,
            !changed ==> *final(self) == *old(self),
            holder_step(*old(self), *final(self)),
    {
        if self.version == observed {
            self.client = None;
            self.version = self.version + 1;
            true
        } else {
            false
        }
    }

    /// Stores a freshly established connection as a new generation.
    pub fn install(&mut self, client: C)
        requires
            old(self).version < u64::MAX,
        ensures
            final(self).client == Some(client),
            final(self).version == old(self).version + 1,
            holder_step(*old(self), *final(self)),
    {
        self.client = Some(client);
        self.version = self.version + 1;
    }
}

/// The delay before retry number `retries` (counting from zero) of a query:
/// the initial delay doubled per retry, capped.
pub open spec fn query_delay(retries: nat) -> nat {
    let d = QUERY_INITIAL_DELAY_MS * pow2(retries);
    if d < QUERY_MAX_DELAY_MS {
        d as nat
    } else {
        QUERY_MAX_DELAY_MS as nat
    }
}

/// The delay before a query's retry number `retries`, in milliseconds.
pub fn query_retry_delay(retries: u32) -> (d: u64)
    ensures
        d == query_delay(retries as nat),
{
    proof {
        lemma2_to64();
        if retries > 2 {
            lemma_pow2_strictly_increases(2, retries as nat);
        }
    }
    if retries == 0 {
        QUERY_INITIAL_DELAY_MS
    } else if retries == 1 {
        2 * QUERY_INITIAL_DELAY_MS
    } else {
        QUERY_MAX_DELAY_MS
    }
}

/// The backoff a query sleeps through before its attempt number `n`
/// (counting from zero): the delays of the `n` retries before it.
pub open spec fn total_backoff(n: nat) -> nat
    decreases n,
{
    if n == 0 {
        0
    } else {
        total_backoff((n - 1) as nat) + query_delay((n - 1) as nat)
    }
}

/// A query that uses its whole budget sleeps 200 + 400 + 600 + 600 + 600
/// milliseconds between its attempts: 2.4 s in all.
pub proof fn lemma_query_backoff_budget()
    ensures
        total_backoff((QUERY_MAX_ATTEMPTS - 1) as nat) == 2400,
{
    lemma2_to64();
    assert(query_delay(0) == 200);
    assert(query_delay(1) == 400);
    assert(query_delay(2) == 600);
    assert(query_delay(3) == 600);
    assert(query_delay(4) == 600);
    reveal_with_fuel(total_backoff, 6);
}

/// How one attempt of a query ended.
#[derive(Clone, Copy, Debug, PartialEq, Eq, Structural)]
pub enum Attempt {
    /// The upstream answered in time.
    Answered,
    /// The attempt failed or timed out on the connection the query observed.
    Failed,
    /// The holder had no connection to try.
    NoConnection,
}

/// What a query does next.
#[derive(Clone, Copy, Debug, PartialEq, Eq, Structural)]
pub enum QueryAction {
    /// Hand the answer to the caller.
    Deliver,
    /// Stop with "max retries exceeded", after invalidating the observed
    /// generation when `invalidate` is set.
    GiveUp { invalidate: bool },
    /// Invalidate the observed generation when `invalidate` is set, signal the
    /// reconnection task when `signal_reconnect` is set, wait `delay_ms`, then
    /// try again.
    Retry { invalidate: bool, signal_reconnect: bool, delay_ms: u64 },
}

/// The retry state of one query: the attempts that have failed so far (each
/// one a retry spent) and whether it has already signalled the
/// reconnection task.
pub struct QueryRetry {
    pub retries: u32,
    pub reconnect_sent: bool,
}

impl QueryRetry {
    /// The query still has an attempt left.
    pub open spec fn wf(&self) -> bool {
        self.retries < QUERY_MAX_ATTEMPTS
    }

    /// A query that has not tried yet.
    pub fn new() -> (r: Self)
        ensures
            r.wf(),
            r.retries == 0,
            !r.reconnect_sent,
    {
        QueryRetry { retries: 0, reconnect_sent: false }
    }

    /// Decides what follows an attempt.  An answer is delivered.  A failed
    /// attempt invalidates the generation it used.  Then the query gives up
    /// when that was its last allowed attempt, and otherwise retries after the backoff
    /// delay, signalling the reconnection task unless it already has.
    pub fn on_attempt(&mut self, attempt: Attempt) -> (a: QueryAction)
        requires
            old(self).wf(),
        ensures
            final(self).wf(),
            final(self).reconnect_sent == old(self).reconnect_sent,
            attempt == Attempt::Answered ==> a == QueryAction::Deliver && *final(self) == *old(self),
            attempt != Attempt::Answered && old(self).retries + 1 >= QUERY_MAX_ATTEMPTS ==> a
                == (QueryAction::GiveUp { invalidate: attempt == Attempt::Failed }) && *final(self)
                == *old(self),
            attempt != Attempt::Answered && old(self).retries + 1 < QUERY_MAX_ATTEMPTS ==> a
                == (QueryAction::Retry {
                    invalidate: attempt == Attempt::Failed,
                    signal_reconnect: !old(self).reconnect_sent,
                    delay_ms: query_delay(old(self).retries as nat) as u64,
                }) && final(self).retries == old(self).retries + 1,
    {
        match attempt {
            Attempt::Answered => QueryAction::Deliver,
            _ => {
                let invalidate = match attempt {
                    Attempt::Failed => true,
                    _ => false,
                };
                if self.retries + 1 >= QUERY_MAX_ATTEMPTS {
                    QueryAction::GiveUp { invalidate }
                } else {
                    let delay_ms = query_retry_delay(self.retries);
                    self.retries = self.retries + 1;
                    QueryAction::Retry { invalidate, signal_reconnect: !self.reconnect_sent, delay_ms }
                }
            },
        }
    }

    /// Notes that the reconnection task was signalled, so that this query
    /// does not signal it again.
    pub fn reconnect_signalled(&mut self)
        ensures
            final(self).reconnect_sent,
            final(self).retries == old(self).retries,
    {
        self.reconnect_sent = true;
    }
}

/// What the reconnection task does after a failed connection attempt.
#[derive(Clone, Copy, Debug, PartialEq, Eq, Structural)]
pub enum ReconnectAction {
    /// Wait `delay_ms`, then try again.
    Wait { delay_ms: u64 },
    /// The attempt budget is spent: stop until the next signal.
    GiveUp,
}

/// The backoff state of one reconnection run: the attempts made and the
/// delay that follows the next failure.
pub struct ReconnectBackoff {
    pub attempts: u32,
    pub delay_ms: u64,
}

/// The smaller of two delays.
pub open spec fn min_delay(a: u64, b: u64) -> u64 {
    if a < b {
        a
    } else {
        b
    }
}

impl ReconnectBackoff {
    /// The delay stays between its initial value and its ceiling, and the
    /// run has attempts left.
    pub open spec fn wf(&self) -> bool {
        &&& self.attempts < RECONNECT_MAX_ATTEMPTS
        &&& RECONNECT_INITIAL_DELAY_MS <= self.delay_ms <= RECONNECT_MAX_DELAY_MS
    }

    /// A run that has not failed yet.
    pub fn new() -> (r: Self)
        ensures
            r.wf(),
            r.attempts == 0,
            r.delay_ms == RECONNECT_INITIAL_DELAY_MS,
    {
        ReconnectBackoff { attempts: 0, delay_ms: RECONNECT_INITIAL_DELAY_MS }
    }

    /// Decides what follows a failed connection attempt.  An unreachable
    /// network snaps the delay to its ceiling; the delay then doubles up to
    /// the ceiling.  The run stops once its attempts are spent.
    pub fn on_failure(&mut self, unreachable: bool) -> (a: ReconnectAction)
        requires
            old(self).wf(),
        ensures
            ({
                let d = if unreachable {
                    RECONNECT_MAX_DELAY_MS
                } else {
                    old(self).delay_ms
                };
                &&& final(self).attempts == old(self).attempts + 1
                &&& final(self).delay_ms == min_delay((2 * d) as u64, RECONNECT_MAX_DELAY_MS)
                &&& final(self).attempts >= RECONNECT_MAX_ATTEMPTS ==> a == ReconnectAction::GiveUp
                &&& final(self).attempts < RECONNECT_MAX_ATTEMPTS ==> final(self).wf() && a
                    == (ReconnectAction::Wait { delay_ms: d })
            }),
    {
        let d = if unreachable {
            RECONNECT_MAX_DELAY_MS
        } else {
            self.delay_ms
        };
        self.attempts = self.attempts + 1;
        self.delay_ms = if 2 * d < RECONNECT_MAX_DELAY_MS {
            2 * d
        } else {
            RECONNECT_MAX_DELAY_MS
        };
        if self.attempts >= RECONNECT_MAX_ATTEMPTS {
            ReconnectAction::GiveUp
        } else {
            ReconnectAction::Wait { delay_ms: d }
        }
    }
}

/// What is known of a failed connection attempt: for an I/O error, its OS
/// error code and whether it was an unexpected end of file.
#[derive(Clone, Copy, Debug, PartialEq, Eq, Structural)]
pub enum ConnectError {
    Io { raw_os_error: Option<i32>, unexpected_eof: bool },
    Other,
}

/// Whether a connection error means the network is unreachable: an I/O
/// error with code ENETUNREACH, or an unexpected end of file at the
/// transport.
pub fn is_network_unreachable_error(e: &ConnectError) -> (r: bool)
    ensures
        r == match *e {
            ConnectError::Io { raw_os_error, unexpected_eof } => raw_os_error == Some(ENETUNREACH)
                || unexpected_eof,
            ConnectError::Other => false,
        },
{
    match e {
        ConnectError::Io { raw_os_error, unexpected_eof } => {
            let code_matches = match raw_os_error {
                Some(c) => *c == ENETUNREACH,
                None => false,
            };
            code_matches || *unexpected_eof
        },
        ConnectError::Other => false,
    }
}

} // verus!
