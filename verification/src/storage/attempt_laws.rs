//! When another attempt is made, how long is waited before it, and what is counted.
use crate::duration::{self, MAX_NANOS, NANOS_PER_MICRO, NANOS_PER_MILLI, NANOS_PER_SEC};
use crate::storage::index::{HashIndexWriteView, IndexWork};
use crate::storage::retry::{self, RetryPolicy, RetryPolicyView, TxCountersView};
use crate::storage::run::{CommitConflict, ExhaustedView, TxRetryExhausted, TxRunView};
use crate::storage::tx::TxView;
use crate::text;
use vstd::prelude::*;

verus! {

/// After a conflict there is another attempt exactly if the one made was not the last
/// that the policy allows and the deadline has not come.
pub proof fn law_when_there_is_another_attempt(run: TxRunView, elapsed: nat)
    ensures
        run.budget_left(elapsed) <==> !(run.attempt >= run.policy.max_attempts) && !(elapsed >= run.policy.deadline),
        run.within_budget() <==> run.attempt >= 1 && (run.attempt == 1 || run.attempt <= run.policy.max_attempts),
{
}

/// Why there is no other attempt: the deadline, if it has come, and otherwise the
/// number of attempts; and which conflict there was.
pub proof fn law_why_there_is_no_other_attempt(run: TxRunView, elapsed: nat)
    ensures
        elapsed >= run.policy.deadline ==> run.no_budget_text(elapsed, CommitConflict::Busy)
            == "deadline before backoff after commit conflict: "@ + "Busy"@ && run.no_budget_text(
            elapsed,
            CommitConflict::TryAgain,
        ) == "deadline before backoff after commit conflict: "@ + "TryAgain"@,
        elapsed < run.policy.deadline ==> run.no_budget_text(elapsed, CommitConflict::Busy)
            == "attempt budget exhausted after commit conflict: "@ + "Busy"@ && run.no_budget_text(
            elapsed,
            CommitConflict::TryAgain,
        ) == "attempt budget exhausted after commit conflict: "@ + "TryAgain"@,
{
}

/// What is said of a run that gave up: how many attempts it made, how long it took, and
/// why it gave up.
pub proof fn law_a_run_that_gave_up_is_told(end: ExhaustedView, seconds: Seq<char>)
    ensures
        end.message(seconds) == "storage transaction retry budget exhausted after "@ + text::decimal(
            end.attempts as nat,
        ) + " attempts in "@ + seconds + "s: "@ + end.last,
{
}

/// Another attempt begins with nothing staged and no work taken down, under the policy
/// and with the indexes of the run.
pub proof fn law_another_attempt_starts_afresh(run: TxRunView)
    ensures
        run.fresh_tx() == (TxView {
            block_hash_index: run.block_hash_index,
            transaction_hash_index: run.transaction_hash_index,
            retry_policy: run.policy,
            metrics: HashIndexWriteView {
                block: IndexWork { nanos: 0, operations: 0 },
                transaction: IndexWork { nanos: 0, operations: 0 },
            },
            staged: Seq::empty(),
        }),
{
}

/// The wait is the one drawn below the bound of the retry, cut short at what is left
/// until the deadline: the first retry follows the first attempt.
pub proof fn law_a_wait_is_cut_short_at_the_deadline(run: TxRunView, elapsed: nat, draw: u64)
    requires
        run.attempt >= 1,
    ensures
        ({
            let drawn = retry::jitter_wait(draw, run.policy.backoff_cap((run.attempt - 1) as u32));
            &&& run.wait(elapsed, draw) <= drawn
            &&& elapsed + drawn <= run.policy.deadline ==> run.wait(elapsed, draw) == drawn
            &&& elapsed <= run.policy.deadline < elapsed + drawn ==> elapsed + run.wait(elapsed, draw)
                == run.policy.deadline
            &&& elapsed > run.policy.deadline ==> run.wait(elapsed, draw) == 0
        }),
{
}

/// A draw selects what is left of it by the bound, as far as that has 64 bits; below a
/// bound of nothing there is no wait.
pub proof fn law_what_a_draw_selects(draw: u64, bound: nat)
    ensures
        retry::jitter_wait(draw, 0) == 0,
        0 < bound && draw < bound && draw < u64::MAX ==> retry::jitter_wait(draw, bound) == draw,
        0 < bound <= draw && bound <= u64::MAX ==> retry::jitter_wait(draw, bound) == retry::jitter_wait(
            (draw - bound) as u64,
            bound,
        ),
        bound >= u64::MAX && draw == u64::MAX ==> retry::jitter_wait(draw, bound) == 0,
{
    if 0 < bound && draw < bound && draw < u64::MAX {
        let limit = duration::smaller(bound, u64::MAX as nat);
        vstd::arithmetic::div_mod::lemma_small_mod(draw as nat, limit);
    }
    if 0 < bound <= draw && bound <= u64::MAX {
        vstd::arithmetic::div_mod::lemma_mod_sub_multiples_vanish(draw as int, bound as int);
    }
    if bound >= u64::MAX && draw == u64::MAX {
        vstd::arithmetic::div_mod::lemma_mod_self_0(u64::MAX as int);
    }
}

/// The bound of a wait is the first wait, doubled as often as retries went before, or
/// the longest wait if that is shorter. From the thirty-second doubling on the factor
/// stays at the largest number of 32 bits.
pub proof fn law_the_bound_of_a_wait(policy: RetryPolicyView, retry: u32)
    ensures
        ({
            let factor = if retry < 32 {
                vstd::arithmetic::power2::pow2(retry as nat)
            } else {
                0xffff_ffffnat
            };
            &&& policy.backoff_cap(retry) <= policy.max_backoff
            &&& policy.backoff_cap(retry) <= policy.base_backoff * factor
            &&& policy.backoff_cap(retry) == policy.max_backoff || policy.backoff_cap(retry) == policy.base_backoff
                * factor
        }),
{
}

/// A restart counts once as a restart and once as a further attempt; giving up counts
/// once; and a wait counts with its whole milliseconds. Each is added to its own count
/// and to no other.
pub proof fn law_what_a_run_counts(counters: TxCountersView, nanos: nat, millis: nat)
    requires
        1_000_000 * millis <= nanos < 1_000_000 * (millis + 1),
    ensures
        counters.restarted() == (TxCountersView {
            restarts: retry::wrapping_sum(counters.restarts, 1),
            retry_attempts: retry::wrapping_sum(counters.retry_attempts, 1),
            exhausted: counters.exhausted,
            backoff_ms: counters.backoff_ms,
        }),
        counters.gave_up() == (TxCountersView {
            exhausted: retry::wrapping_sum(counters.exhausted, 1),
            ..counters
        }),
        counters.waited(nanos) == (TxCountersView {
            backoff_ms: retry::wrapping_sum(counters.backoff_ms, millis as int),
            ..counters
        }),
{
    assert(nanos / 1_000_000 == millis) by (nonlinear_arith)
        requires
            1_000_000 * millis <= nanos < 1_000_000 * (millis + 1),
    ;
}

/// A count goes up by what is added, and goes on from zero after the largest number of
/// 64 bits.
pub proof fn law_counts_wrap(a: u64, b: int)
    requires
        0 <= b <= u64::MAX,
    ensures
        a + b <= u64::MAX ==> retry::wrapping_sum(a, b) == a + b,
        a + b > u64::MAX ==> retry::wrapping_sum(a, b) == a + b - 0x1_0000_0000_0000_0000,
        retry::wrapping_sum(a, b + 0x1_0000_0000_0000_0000) == retry::wrapping_sum(a, b),
{
    let m: int = 0x1_0000_0000_0000_0000;
    if a + b <= u64::MAX {
        vstd::arithmetic::div_mod::lemma_small_mod((a + b) as nat, m as nat);
    } else {
        vstd::arithmetic::div_mod::lemma_small_mod((a + b - m) as nat, m as nat);
        vstd::arithmetic::div_mod::lemma_mod_add_multiples_vanish(a + b - m, m);
    }
    vstd::arithmetic::div_mod::lemma_mod_add_multiples_vanish(a + b, m);
}

/// Times are counted in nanoseconds: a thousand to a microsecond, a thousand of these
/// to a millisecond, a thousand of these to a second. The longest span is the largest
/// number of 64 bits in seconds, and one nanosecond short of another second. The
/// smaller of two amounts is one of them, and not above either.
pub proof fn law_units_of_time(a: nat, b: nat)
    ensures
        NANOS_PER_MICRO == 1_000,
        NANOS_PER_MILLI == 1_000 * NANOS_PER_MICRO,
        NANOS_PER_SEC == 1_000 * NANOS_PER_MILLI,
        MAX_NANOS + 1 == (u64::MAX + 1) * 1_000_000_000,
        duration::smaller(a, b) <= a,
        duration::smaller(a, b) <= b,
        duration::smaller(a, b) == a || duration::smaller(a, b) == b,
{
}

/// What a policy, and a run that gave up, say is what they hold.
pub proof fn law_policies_are_told_as_they_are(policy: RetryPolicy, end: TxRetryExhausted)
    ensures
        policy@.max_attempts == policy.max_attempts,
        policy@.deadline == policy.deadline@,
        policy@.base_backoff == policy.base_backoff@,
        policy@.max_backoff == policy.max_backoff@,
        end@.attempts == end.attempts,
        end@.elapsed == end.elapsed@,
        end@.last == end.last@,
{
}

} // verus!
