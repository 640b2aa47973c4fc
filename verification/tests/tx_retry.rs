use std::cell::{Cell, RefCell};

use hotblocks::duration::Duration;
use hotblocks::storage::index::{HashIndex, HashIndexWriteMetrics};
use hotblocks::storage::mutation::Mutation;
use hotblocks::storage::retry::{
    get_global_tx_backoff_ms, get_global_tx_exhausted, get_global_tx_restarts, get_global_tx_retry_attempts,
    get_local_tx_restarts, jitter, jitter_next, jitter_within, record_backoff, LocalTxCounters, RetryPolicy,
    TxCounters,
};
use hotblocks::storage::run::{
    AfterCommit, AfterWait, CommitConflict, CommitOutcome, TxRetryExhausted,
};
use hotblocks::storage::tx::Tx;
use hotblocks::types::{BlockRef, DatasetId, DatasetKind, DatasetLabel};

/// A store of one label that refuses a commit if the label was written since the
/// transaction began.
struct Database {
    policy: RetryPolicy,
    label: RefCell<DatasetLabel>,
    version: Cell<u64>,
    clock_ms: Cell<u64>,
    jitter: Cell<u64>,
    counters: RefCell<TxCounters>,
    local: RefCell<LocalTxCounters>,
}

fn head(number: u64, hash: &str) -> BlockRef {
    BlockRef { number, hash: hash.to_string() }
}

fn open_db(policy: RetryPolicy) -> Database {
    Database {
        policy,
        label: RefCell::new(DatasetLabel { kind: DatasetKind::from_str("evm"), finalized_head: None }),
        version: Cell::new(0),
        clock_ms: Cell::new(0),
        jitter: Cell::new(0),
        counters: RefCell::new(TxCounters::new()),
        local: RefCell::new(LocalTxCounters::new()),
    }
}

impl Database {
    fn commit(&self, began: u64, changes: Vec<Mutation>) -> CommitOutcome<()> {
        if self.version.get() != began {
            return CommitOutcome::Conflict(CommitConflict::Busy);
        }
        for change in changes {
            if let Mutation::PutLabel { label, .. } = change {
                *self.label.borrow_mut() = label;
                self.version.set(self.version.get() + 1);
            }
        }
        CommitOutcome::Committed
    }

    fn update_dataset(
        &self,
        mut cb: impl FnMut(&mut Tx, &DatasetLabel),
    ) -> Result<HashIndexWriteMetrics, TxRetryExhausted> {
        let started = self.clock_ms.get();
        let elapsed = || Duration::from_millis(self.clock_ms.get() - started);
        let mut run = Tx::with_retry_policy(self.policy).run();
        loop {
            let began = self.version.get();
            let label = self.label.borrow().clone();
            cb(run.tx(), &label);
            self.clock_ms.set(self.clock_ms.get() + 1);
            let changes = run.commit();
            let outcome = self.commit(began, changes);
            let conflict = match &outcome {
                CommitOutcome::Conflict(conflict) => *conflict,
                _ => CommitConflict::Busy,
            };
            match run.after_commit(outcome, elapsed(), &mut self.counters.borrow_mut()) {
                AfterCommit::Done => return Ok(run.metrics()),
                AfterCommit::Exhausted(e) => return Err(e),
                AfterCommit::Failed(()) => unreachable!(),
                AfterCommit::Wait => {}
            }
            let mut state = self.jitter.get();
            let wait = run.wait(elapsed(), &mut state);
            self.jitter.set(state);
            self.clock_ms.set(self.clock_ms.get() + wait.as_millis() as u64);
            match run.after_wait(
                conflict,
                wait,
                elapsed(),
                &mut self.counters.borrow_mut(),
                &mut self.local.borrow_mut(),
            ) {
                AfterWait::Replay => {}
                AfterWait::Exhausted(e) => return Err(e),
            }
        }
    }

    fn set_finalized_head(&self, tx: &mut Tx, label: &DatasetLabel, to: BlockRef) {
        let label = DatasetLabel { kind: label.kind.clone(), finalized_head: Some(to) };
        tx.write_label(&DatasetId::from_str("evm"), &label);
    }

    fn finalized_number(&self) -> Option<u64> {
        self.label.borrow().finalized_head.as_ref().map(|h| h.number)
    }

    fn restarts(&self) -> u64 {
        get_global_tx_restarts(&self.counters.borrow())
    }
}

/// Commits a competing write in the window of an attempt.
fn sabotage(db: &Database, marker: u64) {
    let label = DatasetLabel {
        kind: DatasetKind::from_str("evm"),
        finalized_head: Some(head(marker, &format!("sabotage-{}", marker))),
    };
    *db.label.borrow_mut() = label;
    db.version.set(db.version.get() + 1);
}

#[test]
fn no_contention_commits_on_the_first_attempt() {
    let db = open_db(RetryPolicy::default());
    let restarts_before = db.restarts();
    db.update_dataset(|tx, label| db.set_finalized_head(tx, label, head(7, "clean"))).unwrap();
    assert_eq!(db.finalized_number(), Some(7));
    assert_eq!(db.restarts(), restarts_before, "no retries without contention");
}

#[test]
fn n_conflicts_commit_exactly_once_after_n_replays() {
    const CONFLICTS: u32 = 3;
    let db = open_db(RetryPolicy::default().with_base_backoff(Duration::from_millis(1)));
    let seen_attempts = Cell::new(0u32);
    let restarts_before = db.restarts();
    let attempts_before = get_global_tx_retry_attempts(&db.counters.borrow());

    db.update_dataset(|tx, label| {
        let attempt = seen_attempts.get();
        seen_attempts.set(attempt + 1);
        if attempt < CONFLICTS {
            sabotage(&db, 100 + attempt as u64);
        }
        db.set_finalized_head(tx, label, head(42, "winner"));
    })
    .unwrap();

    assert_eq!(seen_attempts.get(), CONFLICTS + 1, "callback replayed once per conflict");
    assert_eq!(db.restarts() - restarts_before, CONFLICTS as u64, "each conflict recorded exactly one restart");
    assert_eq!(
        get_global_tx_retry_attempts(&db.counters.borrow()) - attempts_before,
        CONFLICTS as u64,
        "retry-attempt accounting matches restarts"
    );
    assert_eq!(get_local_tx_restarts(&db.local.borrow()), CONFLICTS as u64);
    assert_eq!(db.finalized_number(), Some(42), "exactly one commit became visible");
}

#[test]
fn persistent_contention_fails_with_typed_exhaustion() {
    let policy = RetryPolicy::default()
        .with_max_attempts(3)
        .with_base_backoff(Duration::from_millis(1))
        .with_max_backoff(Duration::from_millis(2));
    let db = open_db(policy);
    let exhausted_before = get_global_tx_exhausted(&db.counters.borrow());

    let exhausted = db
        .update_dataset(|tx, label| {
            sabotage(&db, 7);
            db.set_finalized_head(tx, label, head(42, "never-commits"));
        })
        .unwrap_err();

    assert_eq!(exhausted.attempts, 3, "budget of attempts respected");
    assert!(!exhausted.last.is_empty());
    assert_eq!(exhausted.last, "attempt budget exhausted after commit conflict: Busy");
    assert_eq!(
        exhausted.message("0.004"),
        "storage transaction retry budget exhausted after 3 attempts in 0.004s: \
         attempt budget exhausted after commit conflict: Busy"
    );
    assert_eq!(get_global_tx_exhausted(&db.counters.borrow()), exhausted_before + 1);
    assert_ne!(db.finalized_number(), Some(42), "the contested mutation never committed");
}

#[test]
fn deadline_exhausts_even_with_a_generous_attempt_budget() {
    let policy = RetryPolicy::default()
        .with_max_attempts(1000)
        .with_deadline(Duration::from_millis(100))
        .with_base_backoff(Duration::from_millis(30))
        .with_max_backoff(Duration::from_millis(40));
    let db = open_db(policy);

    let exhausted = db
        .update_dataset(|tx, label| {
            sabotage(&db, 9);
            db.set_finalized_head(tx, label, head(42, "deadline-bound"));
        })
        .unwrap_err();

    assert!(
        exhausted.last.contains("deadline"),
        "the deadline branch must be reported, got: {}",
        exhausted.last
    );
    assert!(exhausted.elapsed < Duration::from_secs(2), "deadline must actually bound wall time");
    assert_ne!(db.finalized_number(), Some(42));
}

#[test]
fn backoff_is_bounded_by_the_policy() {
    const CONFLICTS: u32 = 3;
    let policy = RetryPolicy::default()
        .with_base_backoff(Duration::from_millis(20))
        .with_max_backoff(Duration::from_millis(30));
    let db = open_db(policy);
    let backoff_before = get_global_tx_backoff_ms(&db.counters.borrow());
    let started = db.clock_ms.get();

    let attempts = Cell::new(0u32);
    db.update_dataset(|_tx, _label| {
        let attempt = attempts.get();
        attempts.set(attempt + 1);
        if attempt < CONFLICTS {
            sabotage(&db, 500 + attempt as u64);
        }
    })
    .unwrap();

    let elapsed = db.clock_ms.get() - started;
    let slept = get_global_tx_backoff_ms(&db.counters.borrow()) - backoff_before;
    assert!(slept <= (CONFLICTS as u64) * 30, "recorded backoff {} ms exceeds cap", slept);
    assert!(elapsed < 2000, "no unbounded stall on the happy path");
}

#[test]
fn each_bound_names_itself_when_it_ends_a_run() {
    let mut counters = TxCounters::new();
    let mut local = LocalTxCounters::new();
    let policy = RetryPolicy::default().with_max_attempts(2).with_deadline(Duration::from_millis(50));
    let mut run = Tx::with_retry_policy(policy).run();

    // The attempt itself crossed the deadline.
    let next: AfterCommit<()> = run.after_commit(
        CommitOutcome::Conflict(CommitConflict::TryAgain),
        Duration::from_millis(50),
        &mut counters,
    );
    match next {
        AfterCommit::Exhausted(e) => {
            assert_eq!(e.attempts, 1);
            assert_eq!(e.elapsed, Duration::from_millis(50));
            assert_eq!(e.last, "deadline before backoff after commit conflict: TryAgain");
        }
        other => panic!("{:?}", other),
    }

    // The wait crossed it.
    match run.after_wait(
        CommitConflict::Busy,
        Duration::from_millis(3),
        Duration::from_millis(51),
        &mut counters,
        &mut local,
    ) {
        AfterWait::Exhausted(e) => assert_eq!(e.last, "deadline after commit conflict: Busy"),
        other => panic!("{:?}", other),
    }
    assert_eq!(get_global_tx_restarts(&counters), 0, "an attempt that is not made is not counted");
    assert_eq!(get_global_tx_exhausted(&counters), 2);
    assert_eq!(get_global_tx_backoff_ms(&counters), 3);

    // Neither did.
    assert!(matches!(
        run.after_wait(
            CommitConflict::Busy,
            Duration::from_millis(3),
            Duration::from_millis(49),
            &mut counters,
            &mut local
        ),
        AfterWait::Replay
    ));
    assert_eq!(run.attempt(), 2);
    let next: AfterCommit<()> = run.after_commit(
        CommitOutcome::Conflict(CommitConflict::Busy),
        Duration::from_millis(49),
        &mut counters,
    );
    match next {
        AfterCommit::Exhausted(e) => assert_eq!(e.last, "attempt budget exhausted after commit conflict: Busy"),
        other => panic!("{:?}", other),
    }
}

#[test]
fn other_commit_failures_are_not_retried() {
    let mut counters = TxCounters::new();
    let run = Tx::new().run();
    let next = run.after_commit(CommitOutcome::Failed("corrupt"), Duration::zero(), &mut counters);
    assert!(matches!(next, AfterCommit::Failed("corrupt")));
    let next: AfterCommit<()> = run.after_commit(CommitOutcome::Committed, Duration::zero(), &mut counters);
    assert!(matches!(next, AfterCommit::Done));
    assert_eq!(counters, TxCounters::new());
}

#[test]
fn a_wait_does_not_pass_the_deadline() {
    let policy = RetryPolicy::default()
        .with_deadline(Duration::from_millis(100))
        .with_base_backoff(Duration::from_secs(5))
        .with_max_backoff(Duration::from_secs(5));
    let run = Tx::with_retry_policy(policy).run();
    let mut state = 1u64;
    for _ in 0..100 {
        assert!(run.wait(Duration::from_millis(90), &mut state) <= Duration::from_millis(10));
    }
    assert_eq!(run.wait(Duration::from_millis(200), &mut state), Duration::zero());
}

#[test]
fn index_work_adds_up_over_attempts() {
    let mut counters = TxCounters::new();
    let mut local = LocalTxCounters::new();
    let mut run = Tx::new().run();
    run.tx().measure_hash_index(HashIndex::Block, Duration::from_millis(3));
    assert!(run.commit().is_empty());
    assert!(matches!(
        run.after_wait(
            CommitConflict::Busy,
            Duration::zero(),
            Duration::zero(),
            &mut counters,
            &mut local
        ),
        AfterWait::Replay
    ));
    run.tx().measure_hash_index(HashIndex::Block, Duration::from_millis(4));
    let metrics = run.abandon();
    assert_eq!(metrics.block_hash_index_operations(), 2);
    assert_eq!(metrics.block_hash_index_duration(), Some(Duration::from_millis(7)));
    assert_eq!(metrics.transaction_hash_index_operations(), 0);
    assert_eq!(metrics.transaction_hash_index_duration(), None);
}

#[test]
fn recorded_waits_are_whole_milliseconds() {
    let mut counters = TxCounters::new();
    record_backoff(&mut counters, Duration::from_micros(1999));
    assert_eq!(get_global_tx_backoff_ms(&counters), 1);
    record_backoff(&mut counters, Duration::from_millis(5));
    assert_eq!(get_global_tx_backoff_ms(&counters), 6);
}

#[test]
fn subms_jitter_bound_is_not_floored_to_zero() {
    let bound = Duration::from_micros(500);
    let mut state = 0u64;
    let mut saw_positive = false;
    for _ in 0..1000 {
        let d = jitter(&mut state, bound);
        assert!(d < bound, "draw {d:?} must stay inside [0, {bound:?})");
        if d > Duration::zero() {
            saw_positive = true;
        }
    }
    assert!(saw_positive, "a positive sub-ms cap must produce positive backoff draws");
}

#[test]
fn zero_bound_jitter_is_zero() {
    let mut state = 0u64;
    assert_eq!(jitter(&mut state, Duration::zero()), Duration::zero());
}

#[test]
fn backoff_saturates_past_the_shift_width_without_panicking() {
    let policy = RetryPolicy::default();
    let mut state = 0u64;
    for retry in [0u32, 15, 16, 31, 32, 33, 64, 200] {
        let d = policy.backoff(retry, &mut state);
        assert!(
            d <= policy.max_backoff,
            "retry {retry}: {d:?} must be capped by max_backoff {:?}",
            policy.max_backoff
        );
    }
}

#[test]
fn backoff_reaches_the_max_backoff_cap() {
    let policy = RetryPolicy::default();
    let half = Duration::from_millis(500);
    let mut state = 0u64;
    let mut saw_high = false;
    for _ in 0..1000 {
        if policy.backoff(20, &mut state) >= half {
            saw_high = true;
            break;
        }
    }
    assert!(saw_high, "large-retry backoff should span up to max_backoff, not a lower plateau");
}

#[test]
fn backoff_climbs_past_the_2_pow_16_pin_when_the_cap_allows_it() {
    let base = Duration::from_micros(1);
    let max = Duration::from_secs(10);
    let policy = RetryPolicy::default().with_base_backoff(base).with_max_backoff(max);

    let old_pin = base.saturating_mul(1 << 16);
    assert!(old_pin < max, "test premise: the 2^16 pin must sit below the cap to be observable");

    let mut state = 0u64;
    let mut saw_past_pin = false;
    for _ in 0..1000 {
        if policy.backoff(24, &mut state) > old_pin {
            saw_past_pin = true;
            break;
        }
    }
    assert!(
        saw_past_pin,
        "a high-retry backoff must be able to exceed the old base*2^16 pin ({old_pin:?}) when max_backoff \
         ({max:?}) allows it"
    );
}

#[test]
fn the_jitter_generator_starts_from_its_seed() {
    assert_eq!(jitter_next(0), 0x9E3779B97F4A7C15);
    let one = {
        let x = 1u64 ^ (1 >> 12);
        let x = x ^ (x << 25);
        let x = x ^ (x >> 27);
        x.wrapping_mul(0x2545F4914F6CDD1D)
    };
    assert_eq!(jitter_next(1), one);
    assert_ne!(jitter_next(one), 0);
    assert_eq!(jitter_within(1007, Duration::from_nanos(100)), Duration::from_nanos(7));
}

#[test]
fn waits_double_up_to_the_longest() {
    let policy = RetryPolicy::default();
    let caps: Vec<u128> = (0..9).map(|retry| policy.backoff_cap(retry).as_millis()).collect();
    assert_eq!(caps, vec![10, 20, 40, 80, 160, 320, 640, 1000, 1000]);
    assert_eq!(policy.backoff_cap(u32::MAX), Duration::from_secs(1));
    assert_eq!(RetryPolicy::default().with_max_attempts(0).max_attempts, 1);
    assert_eq!(policy.max_attempts, 8);
    assert_eq!(policy.deadline, Duration::from_secs(30));
}

#[test]
fn all_waits_of_a_run_fit_in_its_budget() {
    let longest = Duration::from_millis(7);
    let policy = RetryPolicy::default()
        .with_max_attempts(50)
        .with_deadline(Duration::from_millis(60))
        .with_base_backoff(Duration::from_millis(4))
        .with_max_backoff(longest);
    let (mut counters, mut local) = (TxCounters::new(), LocalTxCounters::new());
    let mut run = Tx::with_retry_policy(policy).run();
    let (mut now, mut waited, mut conflicts, mut state) = (Duration::zero(), Duration::zero(), 0u32, 0u64);
    loop {
        assert!(run.commit().is_empty());
        now = now.saturating_add(Duration::from_micros(300));
        match run.after_commit::<()>(CommitOutcome::Conflict(CommitConflict::TryAgain), now, &mut counters) {
            AfterCommit::Wait => {}
            AfterCommit::Exhausted(_) => break,
            other => panic!("{:?}", other),
        }
        let wait = run.wait(now, &mut state);
        now = now.saturating_add(wait);
        waited = waited.saturating_add(wait);
        conflicts += 1;
        if let AfterWait::Exhausted(_) = run.after_wait(CommitConflict::TryAgain, wait, now, &mut counters, &mut local) {
            break;
        }
    }
    assert!(conflicts > 3 && conflicts < 50);
    assert!(waited <= Duration::from_millis(60));
    assert!(waited <= longest.saturating_mul(conflicts));
    assert!(waited > Duration::zero());
    assert_eq!(get_global_tx_exhausted(&counters), 1);
    assert!(get_global_tx_backoff_ms(&counters) <= 60);
    assert_eq!(u64::from(run.attempt()), 1 + get_global_tx_restarts(&counters));
}

#[test]
fn half_of_the_states_draw_odd() {
    let tapped = |s: u64| (s ^ (s >> 2) ^ (s >> 12) ^ (s >> 14) ^ (s >> 27) ^ (s >> 39)) & 1;
    for state in [1u64, 2, 4, 5, 0x1000, 0x8000_0000_0000_0000, 1 << 39, u64::MAX, 0x9E3779B97F4A7C15] {
        assert_eq!(jitter_next(state) % 2, tapped(state), "{state:#x}");
        assert_eq!(tapped(state) + tapped(state ^ 1), 1);
    }
    assert_eq!(jitter_next(0) % 2, 1);
}

#[test]
fn waits_are_drawn_from_any_state() {
    for mut state in [1u64, 1 << 63, u64::MAX, 12_345] {
        let short = Duration::from_micros(500);
        let draws: Vec<Duration> = (0..1000).map(|_| jitter(&mut state, short)).collect();
        assert!(draws.iter().all(|d| *d < short));
        assert!(draws.iter().any(|d| *d > Duration::zero()));
        let policy = RetryPolicy::default()
            .with_base_backoff(Duration::from_micros(1))
            .with_max_backoff(Duration::from_secs(10));
        let waits: Vec<Duration> = (0..1000).map(|_| policy.backoff(24, &mut state)).collect();
        assert!(waits.iter().all(|d| *d < Duration::from_secs(10)));
        assert!(waits.iter().any(|d| *d > Duration::from_micros(65_536)));
    }
}

#[test]
fn merging_nothing_changes_nothing() {
    let mut metrics = HashIndexWriteMetrics::default();
    metrics.record(HashIndex::Block, Duration::from_secs(u64::MAX));
    metrics.record(HashIndex::Transaction, Duration::from_millis(3));
    metrics.merge(HashIndexWriteMetrics::default());
    assert_eq!(metrics.block_hash_index_duration(), Some(Duration::from_secs(u64::MAX)));
    assert_eq!(metrics.block_hash_index_operations(), 1);
    assert_eq!(metrics.transaction_hash_index_duration(), Some(Duration::from_millis(3)));
}
