//! Retry with exponential backoff for transient network failures.
//!
//! The state machine here makes every retry decision; the caller only
//! performs the operation, reports each failure, and sleeps for the
//! delay this module hands back.  The first delay is 100 ms, each
//! further delay doubles, and no delay ever exceeds 30 000 ms.

use vstd::prelude::*;

verus! {

/// First delay between attempts, in milliseconds.
pub const INITIAL_BACKOFF_MS: u64 = 100;

/// No backoff delay ever exceeds this many milliseconds.
pub const BACKOFF_CAP_MS: u64 = 30000;

/// The delay slept after failure number `k + 1`: doubling from 100 ms,
/// capped at 30 000 ms.
pub open spec fn spec_backoff_delay(k: nat) -> int
    decreases k,
{
    if k == 0 {
        INITIAL_BACKOFF_MS as int
    } else if 2 * spec_backoff_delay((k - 1) as nat) >= BACKOFF_CAP_MS {
        BACKOFF_CAP_MS as int
    } else {
        2 * spec_backoff_delay((k - 1) as nat)
    }
}

/// Backoff delays stay within the documented bounds.
pub proof fn lemma_backoff_delay_bounds(k: nat)
    ensures
        INITIAL_BACKOFF_MS <= spec_backoff_delay(k) <= BACKOFF_CAP_MS,
    decreases k,
{
    if k > 0 {
        lemma_backoff_delay_bounds((k - 1) as nat);
    }
}

/// Ephemeral per-operation retry bookkeeping: how many attempts have
/// failed and what delay a further retry would sleep.
pub struct RetryState {
    /// Failed attempts so far.
    pub attempts: u32,
    /// Attempt budget: once `attempts` reaches this, the operation
    /// fails for good.
    pub max_retries: u32,
    /// The delay to sleep before the next retried attempt.
    pub delay_ms: u64,
}

impl RetryState {
    /// The delay field always equals the backoff schedule at the
    /// current attempt count.
    pub open spec fn wf(self) -> bool {
        self.delay_ms == spec_backoff_delay(self.attempts as nat)
    }

    /// Fresh state at the start of a retryable operation.
    pub fn new(max_retries: u32) -> (s: RetryState)
        ensures
            s.wf(),
            s.attempts == 0,
            s.max_retries == max_retries,
            s.delay_ms == INITIAL_BACKOFF_MS,
    {
        RetryState { attempts: 0, max_retries, delay_ms: INITIAL_BACKOFF_MS }
    }

    /// Record one failed attempt.  Returns `Some(delay_ms)` when the
    /// operation should be retried after sleeping that long, and
    /// `None` when it must give up: either the failure is not
    /// recoverable or the attempt budget is exhausted.
    pub fn record_failure(&mut self, recoverable: bool) -> (retry: Option<u64>)
        requires
            old(self).wf(),
            old(self).attempts < u32::MAX,
        ensures
            final(self).wf(),
            final(self).attempts == old(self).attempts + 1,
            final(self).max_retries == old(self).max_retries,
            retry is Some <==> (old(self).attempts + 1 < old(self).max_retries && recoverable),
            retry is Some ==> retry->0 == spec_backoff_delay(old(self).attempts as nat),
            retry is Some ==> final(self).delay_ms == spec_backoff_delay(
                final(self).attempts as nat,
            ),
    {
        proof {
            lemma_backoff_delay_bounds(self.attempts as nat);
        }
        self.attempts = self.attempts + 1;
        if self.attempts >= self.max_retries || !recoverable {
            self.delay_ms = backoff_step(self.delay_ms);
            return None;
        }
        let sleep = self.delay_ms;
        self.delay_ms = backoff_step(self.delay_ms);
        Some(sleep)
    }
}

/// One doubling step of the backoff schedule, capped.
fn backoff_step(delay_ms: u64) -> (next: u64)
    requires
        delay_ms <= BACKOFF_CAP_MS,
    ensures
        next == if 2 * delay_ms >= BACKOFF_CAP_MS {
            BACKOFF_CAP_MS as int
        } else {
            2 * delay_ms
        },
{
    if delay_ms >= BACKOFF_CAP_MS / 2 {
        BACKOFF_CAP_MS
    } else {
        2 * delay_ms
    }
}

} // verus!
