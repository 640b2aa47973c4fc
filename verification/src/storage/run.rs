//! Running a transaction until it commits or its budget is used up.
//!
//! One run makes one attempt after the other: the caller stages its changes
//! through [`TxRun::tx`], commits what [`TxRun::commit`] hands out, and tells
//! [`TxRun::after_commit`] what came of it. After a conflict it waits as long as
//! [`TxRun::wait`] says, and [`TxRun::after_wait`] says whether there is another
//! attempt. The changes of an attempt that did not commit are never seen, so what
//! the caller does within an attempt must be fit to be done again.
use crate::duration::{self, Duration};
use crate::storage::index::{HashIndexWriteMetrics, HashIndexWriteView};
use crate::storage::mutation::{self, Mutation};
use crate::storage::retry::{
    self, record_backoff, record_exhausted, record_restart, LocalTxCounters, RetryPolicy, TxCounters,
};
use crate::storage::tx::{Tx, TxView};
use crate::text::{self, push_decimal};
use vstd::prelude::*;

verus! {

/// A run gave up without committing. None of its changes became visible; the whole
/// may be tried again, but the assumption of a single writer is to be looked into.
#[derive(Debug)]
pub struct TxRetryExhausted {
    pub attempts: u32,
    pub elapsed: Duration,
    /// Why there was no further attempt.
    pub last: String,
}

/// What a [`TxRetryExhausted`] says.
pub struct ExhaustedView {
    pub attempts: u32,
    pub elapsed: nat,
    pub last: Seq<char>,
}

impl View for TxRetryExhausted {
    type V = ExhaustedView;

    open spec fn view(&self) -> ExhaustedView {
        ExhaustedView { attempts: self.attempts, elapsed: self.elapsed@, last: self.last@ }
    }
}

impl ExhaustedView {
    /// What is said of it, with the elapsed time written as `seconds`.
    pub open spec fn message(self, seconds: Seq<char>) -> Seq<char> {
        "storage transaction retry budget exhausted after "@ + text::decimal(self.attempts as nat)
            + " attempts in "@ + seconds + "s: "@ + self.last
    }
}

impl TxRetryExhausted {
    /// What is said of it, with the elapsed time written as `seconds`.
    pub fn message(&self, seconds: &str) -> (said: String)
        ensures
            said@ == self@.message(seconds@),
    {
        let mut said: String = "storage transaction retry budget exhausted after ".to_owned();
        push_decimal(&mut said, self.attempts as u64);
        said.append(" attempts in ");
        said.append(seconds);
        said.append("s: ");
        said.append(self.last.as_str());
        said
    }
}

/// Why a commit was refused in favour of another writer.
#[derive(Clone, Copy, Debug, PartialEq, Eq, Structural)]
pub enum CommitConflict {
    Busy,
    TryAgain,
}

impl CommitConflict {
    /// The name of the conflict.
    pub open spec fn name(self) -> Seq<char> {
        match self {
            CommitConflict::Busy => "Busy"@,
            CommitConflict::TryAgain => "TryAgain"@,
        }
    }

    /// The name of the conflict.
    pub fn as_str(self) -> (name: &'static str)
        ensures
            name@ == self.name(),
    {
        match self {
            CommitConflict::Busy => "Busy",
            CommitConflict::TryAgain => "TryAgain",
        }
    }
}

/// What came of a commit.
#[derive(Debug)]
pub enum CommitOutcome<E> {
    Committed,
    Conflict(CommitConflict),
    /// It failed for another reason.
    Failed(E),
}

/// How a run goes on after a commit.
#[derive(Debug)]
pub enum AfterCommit<E> {
    /// The run has succeeded.
    Done,
    /// The run waits, and then may try again.
    Wait,
    Exhausted(TxRetryExhausted),
    Failed(E),
}

/// How a run goes on after a wait.
#[derive(Debug)]
pub enum AfterWait {
    /// There is another attempt, with a fresh transaction.
    Replay,
    Exhausted(TxRetryExhausted),
}

/// A run under way.
#[derive(Debug)]
pub struct TxRun {
    tx: Tx,
    policy: RetryPolicy,
    block_hash_index: bool,
    transaction_hash_index: bool,
    attempt: u32,
    metrics: HashIndexWriteMetrics,
}

/// Where a run stands.
pub struct TxRunView {
    /// The transaction of the current attempt.
    pub tx: TxView,
    pub policy: retry::RetryPolicyView,
    pub block_hash_index: bool,
    pub transaction_hash_index: bool,
    /// The number of the current attempt, the first being number one.
    pub attempt: u32,
    /// What the indexes have cost in all attempts so far.
    pub metrics: HashIndexWriteView,
}

impl View for TxRun {
    type V = TxRunView;

    closed spec fn view(&self) -> TxRunView {
        TxRunView {
            tx: self.tx@,
            policy: self.policy@,
            block_hash_index: self.block_hash_index,
            transaction_hash_index: self.transaction_hash_index,
            attempt: self.attempt,
            metrics: self.metrics@,
        }
    }
}

impl TxRunView {
    /// Whether the run has kept to its budget of attempts. At least one is made.
    pub open spec fn within_budget(self) -> bool {
        self.attempt == 1 || 1 < self.attempt <= self.policy.max_attempts
    }

    /// A transaction with nothing staged, for another attempt.
    pub open spec fn fresh_tx(self) -> TxView {
        TxView {
            block_hash_index: self.block_hash_index,
            transaction_hash_index: self.transaction_hash_index,
            retry_policy: self.policy,
            metrics: HashIndexWriteView::none(),
            staged: Seq::empty(),
        }
    }

    /// Whether there may be another attempt after one that ended `elapsed`
    /// nanoseconds into the run.
    pub open spec fn budget_left(self, elapsed: nat) -> bool {
        self.attempt < self.policy.max_attempts && elapsed < self.policy.deadline
    }

    /// Why there is none. The deadline can be crossed by the attempt itself, and
    /// then it is the reason.
    pub open spec fn no_budget_text(self, elapsed: nat, conflict: CommitConflict) -> Seq<char> {
        if elapsed >= self.policy.deadline {
            "deadline before backoff after commit conflict: "@ + conflict.name()
        } else {
            "attempt budget exhausted after commit conflict: "@ + conflict.name()
        }
    }

    /// The wait, drawn from the jitter state `draw`, before the next attempt: never
    /// longer than what is left of the deadline.
    pub open spec fn wait(self, elapsed: nat, draw: u64) -> nat {
        duration::smaller(
            retry::jitter_wait(draw, self.policy.backoff_cap((self.attempt - 1) as u32)),
            if elapsed >= self.policy.deadline {
                0
            } else {
                (self.policy.deadline - elapsed) as nat
            },
        )
    }
}

impl Tx {
    /// Starts a run with this transaction.
    pub fn run(self) -> (run: TxRun)
        ensures
            run@ == (TxRunView {
                tx: self@,
                policy: self@.retry_policy,
                block_hash_index: self@.block_hash_index,
                transaction_hash_index: self@.transaction_hash_index,
                attempt: 1,
                metrics: HashIndexWriteView::none(),
            }),
            run@.within_budget(),
    {
        self.run_with_hash_index_metrics(HashIndexWriteMetrics::default())
    }

    /// Starts a run with this transaction; what the indexes cost is added to
    /// `metrics`.
    pub fn run_with_hash_index_metrics(self, metrics: HashIndexWriteMetrics) -> (run: TxRun)
        ensures
            run@ == (TxRunView {
                tx: self@,
                policy: self@.retry_policy,
                block_hash_index: self@.block_hash_index,
                transaction_hash_index: self@.transaction_hash_index,
                attempt: 1,
                metrics: metrics@,
            }),
            run@.within_budget(),
    {
        let policy: RetryPolicy = self.retry_policy();
        let block_hash_index: bool = self.has_block_hash_index();
        let transaction_hash_index: bool = self.has_transaction_hash_index();
        TxRun { tx: self, policy, block_hash_index, transaction_hash_index, attempt: 1, metrics }
    }
}

impl TxRun {
    /// The transaction of the current attempt.
    pub fn tx(&mut self) -> (tx: &mut Tx)
        ensures
            tx@ == old(self)@.tx,
            final(self)@ == (TxRunView { tx: final(tx)@, ..old(self)@ }),
    {
        &mut self.tx
    }

    /// The number of the current attempt.
    pub fn attempt(&self) -> (n: u32)
        ensures
            n == self@.attempt,
    {
        self.attempt
    }

    /// What the indexes have cost in all attempts so far.
    pub fn metrics(&self) -> (metrics: HashIndexWriteMetrics)
        ensures
            metrics@ == self@.metrics,
            metrics@.in_range(),
    {
        proof {
            use_type_invariant(&self.metrics);
        }
        self.metrics
    }

    /// Ends the run because the caller could not stage its changes: what the indexes
    /// have cost all the same.
    pub fn abandon(self) -> (metrics: HashIndexWriteMetrics)
        ensures
            metrics@ == self@.metrics.merged(self@.tx.metrics),
            metrics@.in_range(),
    {
        let mut metrics: HashIndexWriteMetrics = self.metrics;
        let (_changes, attempt_metrics): (Vec<Mutation>, HashIndexWriteMetrics) = self.tx.commit();
        metrics.merge(attempt_metrics);
        metrics
    }

    /// Ends the current attempt: the changes to commit. Nothing of the transaction
    /// is kept.
    pub fn commit(&mut self) -> (changes: Vec<Mutation>)
        ensures
            mutation::mutation_views(changes@) == old(self)@.tx.staged,
            final(self)@ == (TxRunView {
                tx: old(self)@.fresh_tx(),
                metrics: old(self)@.metrics.merged(old(self)@.tx.metrics),
                ..old(self)@
            }),
    {
        let mut ended: Tx = Tx::with_retry_policy(self.policy).with_block_hash_index(
            self.block_hash_index,
        ).with_transaction_hash_index(self.transaction_hash_index);
        std::mem::swap(&mut ended, &mut self.tx);
        let (changes, attempt_metrics): (Vec<Mutation>, HashIndexWriteMetrics) = ended.commit();
        self.metrics.merge(attempt_metrics);
        changes
    }

    /// Takes in what came of the commit, `elapsed` after the start of the run.
    pub fn after_commit<E>(
        &self,
        outcome: CommitOutcome<E>,
        elapsed: Duration,
        counters: &mut TxCounters,
    ) -> (next: AfterCommit<E>)
        ensures
            match outcome {
                CommitOutcome::Committed => next is Done && *final(counters) == *old(counters),
                CommitOutcome::Failed(error) => next == AfterCommit::Failed(error) && *final(counters) == *old(
                    counters,
                ),
                CommitOutcome::Conflict(conflict) => if self@.budget_left(elapsed@) {
                    next is Wait && *final(counters) == *old(counters)
                } else {
                    &&& next matches AfterCommit::Exhausted(e) && e@ == (ExhaustedView {
                        attempts: self@.attempt,
                        elapsed: elapsed@,
                        last: self@.no_budget_text(elapsed@, conflict),
                    })
                    &&& final(counters)@ == old(counters)@.gave_up()
                },
            },
    {
        match outcome {
            CommitOutcome::Committed => AfterCommit::Done,
            CommitOutcome::Failed(error) => AfterCommit::Failed(error),
            CommitOutcome::Conflict(conflict) => {
                let deadline_hit: bool = !self.policy.deadline.exceeds(elapsed);
                if self.attempt < self.policy.max_attempts && !deadline_hit {
                    return AfterCommit::Wait;
                }
                record_exhausted(counters);
                let mut last: String = if deadline_hit {
                    "deadline before backoff after commit conflict: ".to_owned()
                } else {
                    "attempt budget exhausted after commit conflict: ".to_owned()
                };
                last.append(conflict.as_str());
                AfterCommit::Exhausted(TxRetryExhausted { attempts: self.attempt, elapsed, last })
            },
        }
    }

    /// How long to wait before the next attempt, `elapsed` after the start of the
    /// run.
    pub fn wait(&self, elapsed: Duration, jitter_state: &mut u64) -> (wait: Duration)
        requires
            self@.within_budget(),
        ensures
            *final(jitter_state) == retry::jitter_step(*old(jitter_state)),
            wait@ == self@.wait(elapsed@, *final(jitter_state)),
    {
        let remaining: Duration = self.policy.deadline.saturating_sub(elapsed);
        self.policy.backoff(self.attempt - 1, jitter_state).shorter(remaining)
    }

    /// Goes on after waiting for `waited`, `elapsed` after the start of the run. A
    /// restart is counted only if there is another attempt.
    pub fn after_wait(
        &mut self,
        conflict: CommitConflict,
        waited: Duration,
        elapsed: Duration,
        counters: &mut TxCounters,
        local: &mut LocalTxCounters,
    ) -> (next: AfterWait)
        requires
            old(self)@.within_budget(),
            old(self)@.attempt < old(self)@.policy.max_attempts,
        ensures
            if elapsed@ >= old(self)@.policy.deadline {
                &&& next matches AfterWait::Exhausted(e) && e@ == (ExhaustedView {
                    attempts: old(self)@.attempt,
                    elapsed: elapsed@,
                    last: "deadline after commit conflict: "@ + conflict.name(),
                })
                &&& *final(self) == *old(self)
                &&& final(counters)@ == old(counters)@.waited(waited@).gave_up()
                &&& *final(local) == *old(local)
            } else {
                &&& next is Replay
                &&& final(self)@ == (TxRunView {
                    tx: old(self)@.fresh_tx(),
                    attempt: (old(self)@.attempt + 1) as u32,
                    ..old(self)@
                })
                &&& final(counters)@ == old(counters)@.waited(waited@).restarted()
                &&& final(local)@ == retry::wrapping_sum(old(local)@, 1)
            },
            final(self)@.within_budget(),
    {
        record_backoff(counters, waited);
        if !self.policy.deadline.exceeds(elapsed) {
            record_exhausted(counters);
            let mut last: String = "deadline after commit conflict: ".to_owned();
            last.append(conflict.as_str());
            return AfterWait::Exhausted(TxRetryExhausted { attempts: self.attempt, elapsed, last });
        }
        record_restart(counters, local);
        self.tx = Tx::with_retry_policy(self.policy).with_block_hash_index(
            self.block_hash_index,
        ).with_transaction_hash_index(self.transaction_hash_index);
        self.attempt = self.attempt + 1;
        AfterWait::Replay
    }
}

} // verus!
