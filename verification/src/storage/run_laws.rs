//! What holds of a run as a whole, over all its attempts.
use crate::duration;
use crate::storage::index::{HashIndexWriteView, IndexWork};
use crate::storage::laws;
use crate::storage::retry::{self, TxCountersView};
use crate::storage::run::TxRunView;
use vstd::prelude::*;

verus! {

/// An attempt that ended in a conflict and was followed by a wait. Times are
/// nanoseconds since the start of the run.
pub struct Conflicted {
    /// What the indexes cost in the attempt.
    pub work: HashIndexWriteView,
    /// When the attempt ended.
    pub ended: nat,
    /// When the wait was worked out.
    pub asked: nat,
    /// What the wait was drawn from.
    pub draw: u64,
    /// When the wait was over.
    pub resumed: nat,
}

/// The run after these attempts, the next one being under way.
pub open spec fn after_conflicts(run: TxRunView, conflicts: Seq<Conflicted>) -> TxRunView
    decreases conflicts.len(),
{
    if conflicts.len() == 0 {
        run
    } else {
        let before = after_conflicts(run, conflicts.drop_last());
        TxRunView {
            tx: before.fresh_tx(),
            attempt: (before.attempt + 1) as u32,
            metrics: before.metrics.merged(conflicts.last().work),
            ..before
        }
    }
}

/// The wait after the last of these attempts.
pub open spec fn last_wait(run: TxRunView, conflicts: Seq<Conflicted>) -> nat
    recommends
        conflicts.len() > 0,
{
    after_conflicts(run, conflicts.drop_last()).wait(conflicts.last().asked, conflicts.last().draw)
}

/// The waits after these attempts, in order.
pub open spec fn waits(run: TxRunView, conflicts: Seq<Conflicted>) -> Seq<nat>
    decreases conflicts.len(),
{
    if conflicts.len() == 0 {
        Seq::empty()
    } else {
        waits(run, conflicts.drop_last()).push(last_wait(run, conflicts))
    }
}

/// When these attempts and the waits after them were over.
pub open spec fn time_after(conflicts: Seq<Conflicted>) -> nat {
    if conflicts.len() == 0 {
        0
    } else {
        conflicts.last().resumed
    }
}

/// Whether a run can have made these attempts: each began once the wait before it was
/// over, which was not before the time it was meant to last; each left some of the
/// budget; and each wait but the last ended before the deadline.
pub open spec fn runs_through(run: TxRunView, conflicts: Seq<Conflicted>) -> bool
    decreases conflicts.len(),
{
    conflicts.len() > 0 ==> {
        let init = conflicts.drop_last();
        let last = conflicts.last();
        &&& runs_through(run, init)
        &&& init.len() > 0 ==> time_after(init) < run.policy.deadline
        &&& time_after(init) <= last.ended <= last.asked
        &&& last.asked + last_wait(run, conflicts) <= last.resumed
        &&& after_conflicts(run, init).budget_left(last.ended)
    }
}

/// The sum of a list.
pub open spec fn sum(list: Seq<nat>) -> nat
    decreases list.len(),
{
    if list.len() == 0 {
        0
    } else {
        sum(list.drop_last()) + list.last()
    }
}

/// Each conflict uses up one attempt, and the policy stays what it is.
proof fn lemma_attempts(run: TxRunView, conflicts: Seq<Conflicted>)
    requires
        run.within_budget(),
        runs_through(run, conflicts),
    ensures
        after_conflicts(run, conflicts).attempt == run.attempt + conflicts.len(),
        after_conflicts(run, conflicts).within_budget(),
        after_conflicts(run, conflicts).policy == run.policy,
        conflicts.len() > 0 ==> run.attempt + conflicts.len() <= run.policy.max_attempts,
    decreases conflicts.len(),
{
    if conflicts.len() > 0 {
        lemma_attempts(run, conflicts.drop_last());
    }
}

/// All waits of a run together take no longer than its longest wait for each conflict,
/// and no longer than its deadline. There are fewer conflicts with a wait than
/// attempts in the budget.
pub proof fn law_all_waits_fit_in_the_budget(run: TxRunView, conflicts: Seq<Conflicted>)
    requires
        run.within_budget(),
        runs_through(run, conflicts),
    ensures
        waits(run, conflicts).len() == conflicts.len(),
        conflicts.len() > 0 ==> conflicts.len() < run.policy.max_attempts,
        sum(waits(run, conflicts)) <= conflicts.len() * run.policy.max_backoff,
        sum(waits(run, conflicts)) <= run.policy.deadline,
        sum(waits(run, conflicts)) <= time_after(conflicts),
    decreases conflicts.len(),
{
    if conflicts.len() > 0 {
        let init = conflicts.drop_last();
        let last = conflicts.last();
        let longest = run.policy.max_backoff;
        law_all_waits_fit_in_the_budget(run, init);
        lemma_attempts(run, init);
        lemma_attempts(run, conflicts);
        laws::law_waits_are_bounded(after_conflicts(run, init), last.asked, last.draw);
        assert(waits(run, conflicts).drop_last() =~= waits(run, init));
        assert(conflicts.len() * longest == init.len() * longest + longest) by (nonlinear_arith)
            requires
                conflicts.len() == init.len() + 1,
        ;
    }
}

/// The nanoseconds that a list of work took.
pub open spec fn total_nanos(list: Seq<IndexWork>) -> nat
    decreases list.len(),
{
    if list.len() == 0 {
        0
    } else {
        total_nanos(list.drop_last()) + list.last().nanos
    }
}

/// The scans in a list of work.
pub open spec fn total_operations(list: Seq<IndexWork>) -> nat
    decreases list.len(),
{
    if list.len() == 0 {
        0
    } else {
        total_operations(list.drop_last()) + list.last().operations as nat
    }
}

/// Whether `after` is `before` and all the work of the list, up to the limits of times
/// and counts.
pub open spec fn adds_up(before: IndexWork, list: Seq<IndexWork>, after: IndexWork) -> bool {
    &&& after.nanos == duration::smaller(before.nanos + total_nanos(list), duration::MAX_NANOS as nat)
    &&& after.operations == duration::smaller(before.operations as nat + total_operations(list), u64::MAX as nat)
}

proof fn lemma_adds_up(before: IndexWork, list: Seq<IndexWork>, between: IndexWork, work: IndexWork)
    requires
        adds_up(before, list, between),
    ensures
        adds_up(before, list.push(work), between.plus(work)),
{
    assert(list.push(work).drop_last() =~= list);
}

/// What the indexes cost in a run is what they cost in each of its attempts, those
/// that ended in a conflict included: times and scans add up.
pub proof fn law_index_work_adds_up_over_attempts(run: TxRunView, conflicts: Seq<Conflicted>)
    requires
        run.metrics.in_range(),
    ensures
        adds_up(
            run.metrics.block,
            conflicts.map_values(|c: Conflicted| c.work.block),
            after_conflicts(run, conflicts).metrics.block,
        ),
        adds_up(
            run.metrics.transaction,
            conflicts.map_values(|c: Conflicted| c.work.transaction),
            after_conflicts(run, conflicts).metrics.transaction,
        ),
    decreases conflicts.len(),
{
    if conflicts.len() > 0 {
        let init = conflicts.drop_last();
        let last = conflicts.last();
        law_index_work_adds_up_over_attempts(run, init);
        let blocks = init.map_values(|c: Conflicted| c.work.block);
        let transactions = init.map_values(|c: Conflicted| c.work.transaction);
        let before = after_conflicts(run, init).metrics;
        lemma_adds_up(run.metrics.block, blocks, before.block, last.work.block);
        lemma_adds_up(run.metrics.transaction, transactions, before.transaction, last.work.transaction);
        assert(conflicts.map_values(|c: Conflicted| c.work.block) =~= blocks.push(last.work.block));
        assert(conflicts.map_values(|c: Conflicted| c.work.transaction) =~= transactions.push(last.work.transaction));
    }
}

/// How a run ends.
pub enum RunEnd {
    Committed,
    /// A commit failed for another reason than a conflict, or the caller could not
    /// stage its changes.
    Failed,
    /// A conflict left nothing of the budget.
    OutOfBudget,
    /// The deadline had passed after a wait of that many nanoseconds.
    OutOfTime { waited: nat },
}

/// The counters after a run with these waits before further attempts, and that end.
pub open spec fn counted_run(counters: TxCountersView, waits: Seq<nat>, end: RunEnd) -> TxCountersView {
    let replayed = laws::replayed(counters, waits);
    match end {
        RunEnd::Committed => replayed,
        RunEnd::Failed => replayed,
        RunEnd::OutOfBudget => replayed.gave_up(),
        RunEnd::OutOfTime { waited } => replayed.waited(waited).gave_up(),
    }
}

/// The whole milliseconds of each wait, together.
pub open spec fn total_millis(waits: Seq<nat>) -> nat
    decreases waits.len(),
{
    if waits.len() == 0 {
        0
    } else {
        total_millis(waits.drop_last()) + waits.last() / duration::NANOS_PER_MILLI as nat
    }
}

proof fn lemma_wrapping_sum(a: u64, b: int, c: int)
    ensures
        retry::wrapping_sum(retry::wrapping_sum(a, b), c) == retry::wrapping_sum(a, b + c),
{
    let m: int = 0x1_0000_0000_0000_0000;
    vstd::arithmetic::div_mod::lemma_mod_bound(a + b, m);
    vstd::arithmetic::div_mod::lemma_mod_bound(a + b + c, m);
    vstd::arithmetic::div_mod::lemma_add_mod_noop_right(c, a + b, m);
    assert(((a + b) % m + c) % m == (a + b + c) % m);
}

proof fn lemma_millis(counters: TxCountersView, waits: Seq<nat>)
    ensures
        laws::replayed(counters, waits).backoff_ms == retry::wrapping_sum(
            counters.backoff_ms,
            total_millis(waits) as int,
        ),
    decreases waits.len(),
{
    if waits.len() > 0 {
        lemma_millis(counters, waits.drop_last());
        lemma_wrapping_sum(
            counters.backoff_ms,
            total_millis(waits.drop_last()) as int,
            (waits.last() / duration::NANOS_PER_MILLI as nat) as int,
        );
    }
}

/// A run that gives up is counted as one that did, exactly once; no other run is. Each
/// further attempt is counted as one restart, and each wait with its whole
/// milliseconds, the one after which the run gave up included.
pub proof fn law_giving_up_is_counted_once(counters: TxCountersView, waits: Seq<nat>, end: RunEnd)
    ensures
        ({
            let after = counted_run(counters, waits, end);
            &&& after.exhausted == if end is OutOfBudget || end is OutOfTime {
                retry::wrapping_sum(counters.exhausted, 1)
            } else {
                counters.exhausted
            }
            &&& after.restarts == retry::wrapping_sum(counters.restarts, waits.len() as int)
            &&& after.retry_attempts == retry::wrapping_sum(counters.retry_attempts, waits.len() as int)
            &&& after.backoff_ms == retry::wrapping_sum(
                counters.backoff_ms,
                match end {
                    RunEnd::OutOfTime { waited } => total_millis(waits.push(waited)) as int,
                    _ => total_millis(waits) as int,
                },
            )
        }),
{
    laws::law_each_replay_is_counted_once(counters, waits);
    lemma_millis(counters, waits);
    match end {
        RunEnd::OutOfTime { waited } => {
            assert(waits.push(waited).drop_last() =~= waits);
            lemma_wrapping_sum(
                counters.backoff_ms,
                total_millis(waits) as int,
                (waited / duration::NANOS_PER_MILLI as nat) as int,
            );
        },
        _ => {},
    }
}

} // verus!
