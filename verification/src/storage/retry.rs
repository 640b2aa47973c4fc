//! Bounded retries for optimistic storage transactions.
//!
//! The store is designed for a single writer per dataset, so commit conflicts are
//! expected to be rare. The budget exists to fail loudly when that assumption is
//! violated, not to absorb unbounded contention: running out of it is an error of
//! its own kind, never a silent spin.
use crate::duration::{self, Duration};
use vstd::prelude::*;

verus! {

/// What transactions count, over all of them.
#[derive(Clone, Copy, Debug, PartialEq, Eq, Structural)]
pub struct TxCounters {
    restarts: u64,
    /// Attempts beyond the first.
    retry_attempts: u64,
    /// Runs that used up their budget without committing.
    exhausted: u64,
    /// Time spent waiting between attempts, in milliseconds.
    backoff_ms: u64,
}

/// What [`TxCounters`] hold.
pub struct TxCountersView {
    pub restarts: u64,
    pub retry_attempts: u64,
    pub exhausted: u64,
    pub backoff_ms: u64,
}

/// What transactions count on one thread.
#[derive(Clone, Copy, Debug, PartialEq, Eq, Structural)]
pub struct LocalTxCounters {
    restarts: u64,
}

impl View for TxCounters {
    type V = TxCountersView;

    closed spec fn view(&self) -> TxCountersView {
        TxCountersView {
            restarts: self.restarts,
            retry_attempts: self.retry_attempts,
            exhausted: self.exhausted,
            backoff_ms: self.backoff_ms,
        }
    }
}

impl View for LocalTxCounters {
    type V = u64;

    closed spec fn view(&self) -> u64 {
        self.restarts
    }
}

/// `a + b` on 64 bits, the largest value being followed by zero.
pub open spec fn wrapping_sum(a: u64, b: int) -> u64 {
    ((a + b) % 0x1_0000_0000_0000_0000) as u64
}

impl TxCounters {
    /// Counters that have counted nothing.
    pub fn new() -> (counters: Self)
        ensures
            counters@ == (TxCountersView { restarts: 0, retry_attempts: 0, exhausted: 0, backoff_ms: 0 }),
    {
        TxCounters { restarts: 0, retry_attempts: 0, exhausted: 0, backoff_ms: 0 }
    }
}

impl LocalTxCounters {
    /// Counters that have counted nothing.
    pub fn new() -> (counters: Self)
        ensures
            counters@ == 0,
    {
        LocalTxCounters { restarts: 0 }
    }
}

impl TxCountersView {
    /// The counts after one more restart.
    pub open spec fn restarted(self) -> TxCountersView {
        TxCountersView {
            restarts: wrapping_sum(self.restarts, 1),
            retry_attempts: wrapping_sum(self.retry_attempts, 1),
            ..self
        }
    }

    /// The counts after one more run out of budget.
    pub open spec fn gave_up(self) -> TxCountersView {
        TxCountersView { exhausted: wrapping_sum(self.exhausted, 1), ..self }
    }

    /// The counts after waiting for that many nanoseconds.
    pub open spec fn waited(self, nanos: nat) -> TxCountersView {
        TxCountersView {
            backoff_ms: wrapping_sum(self.backoff_ms, (nanos / duration::NANOS_PER_MILLI as nat) as int),
            ..self
        }
    }
}

/// How often a transaction was started anew.
pub fn get_global_tx_restarts(counters: &TxCounters) -> (n: u64)
    ensures
        n == counters@.restarts,
{
    counters.restarts
}

/// How often a transaction was started anew on this thread.
pub fn get_local_tx_restarts(counters: &LocalTxCounters) -> (n: u64)
    ensures
        n == counters@,
{
    counters.restarts
}

/// How many attempts beyond the first were made.
pub fn get_global_tx_retry_attempts(counters: &TxCounters) -> (n: u64)
    ensures
        n == counters@.retry_attempts,
{
    counters.retry_attempts
}

/// How many runs used up their budget without committing.
pub fn get_global_tx_exhausted(counters: &TxCounters) -> (n: u64)
    ensures
        n == counters@.exhausted,
{
    counters.exhausted
}

/// How long transactions have waited between attempts, in milliseconds.
pub fn get_global_tx_backoff_ms(counters: &TxCounters) -> (n: u64)
    ensures
        n == counters@.backoff_ms,
{
    counters.backoff_ms
}

/// Counts a restart.
pub fn record_restart(counters: &mut TxCounters, local: &mut LocalTxCounters)
    ensures
        final(counters)@ == old(counters)@.restarted(),
        final(local)@ == wrapping_sum(old(local)@, 1),
{
    counters.restarts = counters.restarts.wrapping_add(1);
    counters.retry_attempts = counters.retry_attempts.wrapping_add(1);
    local.restarts = local.restarts.wrapping_add(1);
}

/// Counts a run that used up its budget.
pub fn record_exhausted(counters: &mut TxCounters)
    ensures
        final(counters)@ == old(counters)@.gave_up(),
{
    counters.exhausted = counters.exhausted.wrapping_add(1);
}

/// Counts the time waited between two attempts.
pub fn record_backoff(counters: &mut TxCounters, duration: Duration)
    ensures
        final(counters)@ == old(counters)@.waited(duration@),
{
    let millis: u128 = duration.as_millis();
    let low: u64 = (millis % 0x1_0000_0000_0000_0000u128) as u64;
    proof {
        vstd::arithmetic::div_mod::lemma_add_mod_noop_right(
            counters.backoff_ms as int,
            millis as int,
            0x1_0000_0000_0000_0000,
        );
    }
    counters.backoff_ms = counters.backoff_ms.wrapping_add(low);
}

/// The state that a jitter generator starts from: zero stands for "not started".
pub const JITTER_SEED: u64 = 0x9E3779B97F4A7C15;

/// The factor that the generator scrambles its state with.
pub const JITTER_FACTOR: u64 = 0x2545F4914F6CDD1D;

/// The three shifts of the generator.
pub open spec fn jitter_shifted(state: u64) -> u64 {
    let a = state ^ (state >> 12);
    let b = a ^ (a << 25);
    b ^ (b >> 27)
}

/// The state that follows `state`: one step of a 64-bit xorshift generator with a
/// multiplication.
pub open spec fn jitter_step(state: u64) -> u64 {
    if state == 0 {
        JITTER_SEED
    } else {
        ((jitter_shifted(state) * JITTER_FACTOR) % 0x1_0000_0000_0000_0000) as u64
    }
}

/// The wait that `draw` selects below `bound` nanoseconds.
pub open spec fn jitter_wait(draw: u64, bound: nat) -> nat {
    if bound == 0 {
        0
    } else {
        draw as nat % duration::smaller(bound, u64::MAX as nat)
    }
}

/// The generator state that follows `state`.
pub fn jitter_next(state: u64) -> (next: u64)
    ensures
        next == jitter_step(state),
{
    if state == 0 {
        JITTER_SEED
    } else {
        let a: u64 = state ^ (state >> 12);
        let b: u64 = a ^ (a << 25);
        let c: u64 = b ^ (b >> 27);
        c.wrapping_mul(JITTER_FACTOR)
    }
}

/// The wait that `draw` selects below `bound`, to the nanosecond: a bound below a
/// millisecond still gives a proportional wait.
pub fn jitter_within(draw: u64, bound: Duration) -> (wait: Duration)
    ensures
        wait@ == jitter_wait(draw, bound@),
        bound@ > 0 ==> wait@ < bound@,
{
    let nanos: u128 = bound.as_nanos();
    let limit: u64 = if nanos <= u64::MAX as u128 {
        nanos as u64
    } else {
        u64::MAX
    };
    if limit == 0 {
        Duration::zero()
    } else {
        Duration::from_nanos(draw % limit)
    }
}

/// Draws a wait below `bound`. Correlation between successive draws does not
/// matter here.
pub fn jitter(state: &mut u64, bound: Duration) -> (wait: Duration)
    ensures
        *final(state) == jitter_step(*old(state)),
        wait@ == jitter_wait(*final(state), bound@),
        bound@ > 0 ==> wait@ < bound@,
{
    *state = jitter_next(*state);
    jitter_within(*state, bound)
}

/// A budget of attempts and time for one run of a transaction.
#[derive(Clone, Copy, Debug)]
pub struct RetryPolicy {
    /// All attempts, the first one included. At least one is always made.
    pub max_attempts: u32,
    /// Time for the whole run, counted from the first attempt.
    pub deadline: Duration,
    /// Wait before the first retry; it doubles with each retry up to
    /// `max_backoff`.
    pub base_backoff: Duration,
    /// The longest wait before a retry.
    pub max_backoff: Duration,
}

/// What a [`RetryPolicy`] says, times in nanoseconds.
pub struct RetryPolicyView {
    pub max_attempts: u32,
    pub deadline: nat,
    pub base_backoff: nat,
    pub max_backoff: nat,
}

impl View for RetryPolicy {
    type V = RetryPolicyView;

    open spec fn view(&self) -> RetryPolicyView {
        RetryPolicyView {
            max_attempts: self.max_attempts,
            deadline: self.deadline@,
            base_backoff: self.base_backoff@,
            max_backoff: self.max_backoff@,
        }
    }
}

/// What the base wait is multiplied by before retry number `retry`, the first
/// retry being number zero: it doubles until it no longer fits in 32 bits.
pub open spec fn backoff_factor(retry: u32) -> nat {
    if retry < 32 {
        vstd::arithmetic::power2::pow2(retry as nat)
    } else {
        u32::MAX as nat
    }
}

impl RetryPolicyView {
    /// The bound of the wait before retry number `retry`.
    pub open spec fn backoff_cap(self, retry: u32) -> nat {
        duration::smaller(self.base_backoff * backoff_factor(retry), self.max_backoff)
    }
}

impl Default for RetryPolicy {
    fn default() -> (policy: Self)
        ensures
            policy@ == (RetryPolicyView {
                max_attempts: 8,
                deadline: 30 * duration::NANOS_PER_SEC as nat,
                base_backoff: 10 * duration::NANOS_PER_MILLI as nat,
                max_backoff: duration::NANOS_PER_SEC as nat,
            }),
    {
        RetryPolicy {
            max_attempts: 8,
            deadline: Duration::from_secs(30),
            base_backoff: Duration::from_millis(10),
            max_backoff: Duration::from_secs(1),
        }
    }
}

impl RetryPolicy {
    /// The policy with another number of attempts; fewer than one counts as one.
    pub fn with_max_attempts(self, max_attempts: u32) -> (policy: Self)
        ensures
            policy@ == (RetryPolicyView {
                max_attempts: if max_attempts == 0 {
                    1
                } else {
                    max_attempts
                },
                ..self@
            }),
    {
        let max_attempts: u32 = if max_attempts == 0 {
            1
        } else {
            max_attempts
        };
        RetryPolicy { max_attempts, ..self }
    }

    /// The policy with another deadline.
    pub fn with_deadline(self, deadline: Duration) -> (policy: Self)
        ensures
            policy@ == (RetryPolicyView { deadline: deadline@, ..self@ }),
    {
        RetryPolicy { deadline, ..self }
    }

    /// The policy with another first wait.
    pub fn with_base_backoff(self, base_backoff: Duration) -> (policy: Self)
        ensures
            policy@ == (RetryPolicyView { base_backoff: base_backoff@, ..self@ }),
    {
        RetryPolicy { base_backoff, ..self }
    }

    /// The policy with another longest wait.
    pub fn with_max_backoff(self, max_backoff: Duration) -> (policy: Self)
        ensures
            policy@ == (RetryPolicyView { max_backoff: max_backoff@, ..self@ }),
    {
        RetryPolicy { max_backoff, ..self }
    }

    /// The bound of the wait before retry number `retry`, the first retry being
    /// number zero.
    pub fn backoff_cap(&self, retry: u32) -> (cap: Duration)
        ensures
            cap@ == self@.backoff_cap(retry),
    {
        let factor: u32 = if retry < 32 {
            proof {
                vstd::bits::lemma_u32_pow2_no_overflow(retry as nat);
                vstd::bits::lemma_u32_shl_is_mul(1, retry);
            }
            1u32 << retry
        } else {
            u32::MAX
        };
        let longest: u128 = self.max_backoff.as_nanos();
        assert(longest <= duration::MAX_NANOS);
        self.base_backoff.saturating_mul(factor).shorter(self.max_backoff)
    }

    /// Draws the wait before retry number `retry`.
    pub fn backoff(&self, retry: u32, jitter_state: &mut u64) -> (wait: Duration)
        ensures
            *final(jitter_state) == jitter_step(*old(jitter_state)),
            wait@ == jitter_wait(*final(jitter_state), self@.backoff_cap(retry)),
            wait@ <= self@.max_backoff,
    {
        let cap: Duration = self.backoff_cap(retry);
        jitter(jitter_state, cap)
    }
}

} // verus!
