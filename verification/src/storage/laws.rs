//! What holds of every transaction.
use crate::storage::chain;
use crate::storage::finality::{self, StoredBlocksView};
use crate::storage::index::{self, HashIndexWriteView, IndexWork};
use crate::storage::mutation::MutationView;
use crate::storage::retry::{self, RetryPolicyView, TxCountersView};
use crate::storage::run::TxRunView;
use crate::storage::tx::{self, HashReadingView, TxErrorView, TxView};
use crate::types::{BlockNumber, BlockRefView, ChunkView, DatasetLabelView};
use vstd::prelude::*;

verus! {

/// What the factor of the generator is undone with, on 64 bits.
pub const JITTER_INVERSE: u64 = 0x59071d96d81ecd35;

/// The jitter generator never comes to rest at zero, the one state it could not
/// leave by itself.
pub proof fn law_jitter_never_rests(state: u64)
    ensures
        retry::jitter_step(state) != 0,
{
    if state != 0 {
        let x = retry::jitter_shifted(state);
        lemma_shifts_keep_nonzero(state);
        lemma_factor_keeps_nonzero(x);
    }
}

proof fn lemma_shifts_keep_nonzero(state: u64)
    requires
        state != 0,
    ensures
        retry::jitter_shifted(state) != 0,
{
    let a = state ^ (state >> 12);
    assert(a != 0) by (bit_vector)
        requires
            state != 0,
            a == state ^ (state >> 12),
    ;
    let b = a ^ (a << 25);
    assert(b != 0) by (bit_vector)
        requires
            a != 0,
            b == a ^ (a << 25),
    ;
    let c = b ^ (b >> 27);
    assert(c != 0) by (bit_vector)
        requires
            b != 0,
            c == b ^ (b >> 27),
    ;
}

/// The factor is odd, so it can be divided out again on 64 bits.
proof fn lemma_factor_keeps_nonzero(x: u64)
    requires
        x != 0,
    ensures
        (x * retry::JITTER_FACTOR) % 0x1_0000_0000_0000_0000 != 0,
{
    let m: int = 0x1_0000_0000_0000_0000;
    let f: int = retry::JITTER_FACTOR as int;
    let g: int = JITTER_INVERSE as int;
    if (x * f) % m == 0 {
        let q = (x * f) / m;
        assert(x * f == q * m) by (nonlinear_arith)
            requires
                (x * f) % m == 0,
                q == (x * f) / m,
                m > 0,
        ;
        let k: int = 0xcf65b3f17bf4a6b;
        assert(f * g == k * m + 1);
        assert(x as int == m * (q * g - x * k)) by (nonlinear_arith)
            requires
                x * f == q * m,
                f * g == k * m + 1,
        ;
        let d = q * g - x * k;
        assert(d <= 0 || d >= 1);
        assert(m * d <= 0 || m * d >= m) by (nonlinear_arith)
            requires
                d <= 0 || d >= 1,
                m > 0,
        ;
    }
}

/// The bound of the wait never shrinks from one retry to the next, and never
/// exceeds the longest wait. Before it reaches that, it doubles with each retry, as
/// far as a 32-bit factor goes.
pub proof fn law_waits_double_up_to_the_longest(policy: RetryPolicyView, retry: u32)
    requires
        retry < u32::MAX,
    ensures
        policy.backoff_cap(retry) <= policy.backoff_cap((retry + 1) as u32) <= policy.max_backoff,
        retry < 31 && 2 * policy.backoff_cap(retry) <= policy.max_backoff ==> policy.backoff_cap(
            (retry + 1) as u32,
        ) == 2 * policy.backoff_cap(retry),
        policy.backoff_cap(0) == crate::duration::smaller(policy.base_backoff, policy.max_backoff),
{
    let base = policy.base_backoff;
    let here = retry::backoff_factor(retry);
    let next = retry::backoff_factor((retry + 1) as u32);
    vstd::arithmetic::power2::lemma2_to64();
    if retry < 31 {
        vstd::arithmetic::power2::lemma_pow2_unfold((retry + 1) as nat);
        assert(next == 2 * here);
        assert(base * next == 2 * (base * here)) by (nonlinear_arith)
            requires
                next == 2 * here,
        ;
    } else if retry == 31 {
        assert(here <= next);
    }
    assert(base * here <= base * next) by (nonlinear_arith)
        requires
            here <= next,
    ;
    assert(base * retry::backoff_factor(0) == base) by (nonlinear_arith)
        requires
            retry::backoff_factor(0) == 1,
    ;
}

/// A stored place of a transaction reads back as the height and position it was
/// written for.
pub proof fn law_transaction_positions_read_back(block_number: u64, transaction_index: u32)
    ensures
        ({
            let bytes = index::be_bytes_8(block_number) + index::be_bytes_4(transaction_index);
            &&& bytes.len() == 12
            &&& index::be_value(bytes.take(8)) == block_number
            &&& index::be_value(bytes.skip(8)) == transaction_index
        }),
{
    let bytes = index::be_bytes_8(block_number) + index::be_bytes_4(transaction_index);
    assert(bytes.take(8) =~= index::be_bytes_8(block_number));
    assert(bytes.skip(8) =~= index::be_bytes_4(transaction_index));
    lemma_be_value_8(block_number);
    lemma_be_value_4(transaction_index);
}

/// One more byte at the end.
proof fn lemma_be_value_push(bytes: Seq<u8>, weight: nat, n: nat)
    requires
        weight > 0,
        index::be_value(bytes) == n / (256 * weight),
    ensures
        index::be_value(bytes.push(index::byte_of(n, weight))) == n / weight,
{
    let more = bytes.push(index::byte_of(n, weight));
    assert(more.drop_last() =~= bytes);
    assert(n / (256 * weight) == (n / weight) / 256) by {
        vstd::arithmetic::div_mod::lemma_div_denominator(n as int, weight as int, 256);
        assert(weight * 256 == 256 * weight);
    }
}

proof fn lemma_be_value_8(n: u64)
    ensures
        index::be_value(index::be_bytes_8(n)) == n,
{
    let m = n as nat;
    let s0 = Seq::<u8>::empty();
    assert(index::be_value(s0) == m / (256 * 0x100_0000_0000_0000nat)) by {
        vstd::arithmetic::div_mod::lemma_basic_div(m as int, 0x1_0000_0000_0000_0000);
    }
    lemma_be_value_push(s0, 0x100_0000_0000_0000, m);
    let s1 = s0.push(index::byte_of(m, 0x100_0000_0000_0000));
    lemma_be_value_push(s1, 0x1_0000_0000_0000, m);
    let s2 = s1.push(index::byte_of(m, 0x1_0000_0000_0000));
    lemma_be_value_push(s2, 0x100_0000_0000, m);
    let s3 = s2.push(index::byte_of(m, 0x100_0000_0000));
    lemma_be_value_push(s3, 0x1_0000_0000, m);
    let s4 = s3.push(index::byte_of(m, 0x1_0000_0000));
    lemma_be_value_push(s4, 0x100_0000, m);
    let s5 = s4.push(index::byte_of(m, 0x100_0000));
    lemma_be_value_push(s5, 0x1_0000, m);
    let s6 = s5.push(index::byte_of(m, 0x1_0000));
    lemma_be_value_push(s6, 0x100, m);
    let s7 = s6.push(index::byte_of(m, 0x100));
    lemma_be_value_push(s7, 1, m);
    let s8 = s7.push(index::byte_of(m, 1));
    assert(s8 =~= index::be_bytes_8(n));
}

proof fn lemma_be_value_4(n: u32)
    ensures
        index::be_value(index::be_bytes_4(n)) == n,
{
    let m = n as nat;
    let s0 = Seq::<u8>::empty();
    assert(index::be_value(s0) == m / (256 * 0x100_0000nat)) by {
        vstd::arithmetic::div_mod::lemma_basic_div(m as int, 0x1_0000_0000);
    }
    lemma_be_value_push(s0, 0x100_0000, m);
    let s1 = s0.push(index::byte_of(m, 0x100_0000));
    lemma_be_value_push(s1, 0x1_0000, m);
    let s2 = s1.push(index::byte_of(m, 0x1_0000));
    lemma_be_value_push(s2, 0x100, m);
    let s3 = s2.push(index::byte_of(m, 0x100));
    lemma_be_value_push(s3, 1, m);
    let s4 = s3.push(index::byte_of(m, 1));
    assert(s4 =~= index::be_bytes_4(n));
}

/// A run makes no more attempts than its policy allows, though always one; and each
/// further attempt brings it closer to that bound.
pub proof fn law_attempts_stay_within_the_budget(run: TxRunView, elapsed: nat)
    requires
        run.within_budget(),
    ensures
        1 <= run.attempt,
        run.attempt == 1 || run.attempt <= run.policy.max_attempts,
        run.budget_left(elapsed) ==> run.attempt + 1 <= run.policy.max_attempts,
        run.attempt >= run.policy.max_attempts || elapsed >= run.policy.deadline ==> !run.budget_left(elapsed),
{
}

/// A wait before an attempt is no longer than the policy's longest one, and does not
/// carry the run past its deadline.
pub proof fn law_waits_are_bounded(run: TxRunView, elapsed: nat, draw: u64)
    requires
        run.within_budget(),
    ensures
        run.wait(elapsed, draw) <= run.policy.max_backoff,
        elapsed <= run.policy.deadline ==> elapsed + run.wait(elapsed, draw) <= run.policy.deadline,
        elapsed >= run.policy.deadline ==> run.wait(elapsed, draw) == 0,
{
    let cap = run.policy.backoff_cap((run.attempt - 1) as u32);
    if cap > 0 {
        vstd::arithmetic::div_mod::lemma_mod_bound(
            draw as int,
            crate::duration::smaller(cap, u64::MAX as nat) as int,
        );
    }
}

/// The counters after one wait and restart for each of the waits.
pub open spec fn replayed(counters: TxCountersView, waits: Seq<nat>) -> TxCountersView
    decreases waits.len(),
{
    if waits.len() == 0 {
        counters
    } else {
        replayed(counters, waits.drop_last()).waited(waits.last()).restarted()
    }
}

/// Each further attempt counts as exactly one restart and one retry, and as nothing
/// else but the time waited.
pub proof fn law_each_replay_is_counted_once(counters: TxCountersView, waits: Seq<nat>)
    ensures
        replayed(counters, waits).restarts == retry::wrapping_sum(counters.restarts, waits.len() as int),
        replayed(counters, waits).retry_attempts == retry::wrapping_sum(counters.retry_attempts, waits.len() as int),
        replayed(counters, waits).exhausted == counters.exhausted,
    decreases waits.len(),
{
    if waits.len() > 0 {
        law_each_replay_is_counted_once(counters, waits.drop_last());
        let n = waits.len() - 1;
        let m: int = 0x1_0000_0000_0000_0000;
        vstd::arithmetic::div_mod::lemma_add_mod_noop(counters.restarts + n, 1, m);
        vstd::arithmetic::div_mod::lemma_add_mod_noop(counters.retry_attempts + n, 1, m);
    }
}

/// All blocks with heights from `from` to `up_to` of the stored chunks, in order.
pub open spec fn stored_history(stored: Seq<StoredBlocksView>, from: BlockNumber, up_to: BlockNumber) -> Seq<
    BlockRefView,
>
    decreases stored.len(),
{
    if stored.len() == 0 {
        Seq::empty()
    } else {
        finality::within(stored[0].blocks, from, up_to) + stored_history(stored.skip(1), from, up_to)
    }
}

/// A replacement passes exactly if it has the same blocks, in the same order, as
/// stored history up to the finalized head: nothing more, nothing less, nothing
/// else.
pub proof fn law_only_an_equal_prefix_passes(
    waiting: Seq<BlockRefView>,
    fresh: Seq<BlockRefView>,
    stored: Seq<StoredBlocksView>,
    from: BlockNumber,
    up_to: BlockNumber,
)
    requires
        forall|i: int| 0 <= i < stored.len() ==> tx::blocks_table((#[trigger] stored[i]).chunk) is Some,
    ensures
        finality::prefix_verdict(waiting, fresh, stored, from, up_to) is Ok,
        finality::prefix_verdict(waiting, fresh, stored, from, up_to) == Ok::<Option<Seq<char>>, TxErrorView>(None)
            <==> fresh == waiting + stored_history(stored, from, up_to),
    decreases stored.len(), waiting.len(),
{
    let rest = stored_history(stored, from, up_to);
    let whole = waiting + rest;
    if waiting.len() == 0 {
        assert(whole =~= rest);
        if stored.len() == 0 {
            assert(fresh.len() == 0 ==> fresh =~= whole);
        } else {
            let next = finality::within(stored[0].blocks, from, up_to);
            assert forall|i: int| 0 <= i < stored.skip(1).len() implies tx::blocks_table(
                (#[trigger] stored.skip(1)[i]).chunk,
            ) is Some by {
                assert(stored.skip(1)[i] == stored[i + 1]);
            }
            law_only_an_equal_prefix_passes(next, fresh, stored.skip(1), from, up_to);
        }
    } else if fresh.len() == 0 {
        assert(whole.len() > 0);
    } else if fresh[0] == waiting[0] {
        law_only_an_equal_prefix_passes(waiting.skip(1), fresh.skip(1), stored, from, up_to);
        assert(whole.skip(1) =~= waiting.skip(1) + rest);
        assert(whole[0] == waiting[0]);
        assert(fresh == whole <==> fresh.skip(1) == whole.skip(1)) by {
            if fresh.skip(1) == whole.skip(1) {
                assert(fresh =~= seq![fresh[0]] + fresh.skip(1));
                assert(whole =~= seq![whole[0]] + whole.skip(1));
            }
        }
    } else {
        assert(whole[0] == waiting[0]);
    }
}

/// Whether chunks stand in order: none is empty, and each lies above those before.
pub open spec fn ordered(chunks: Seq<ChunkView>) -> bool {
    &&& forall|i: int| 0 <= i < chunks.len() ==> (#[trigger] chunks[i]).first_block <= chunks[i].last_block
    &&& forall|i: int, j: int|
        0 <= i < j < chunks.len() ==> (#[trigger] chunks[i]).last_block < (#[trigger] chunks[j]).first_block
}

/// Whether a chunk can stand among the others: it shares no height with any of them,
/// and links to those right next to it.
pub open spec fn fits_among(chunk: ChunkView, chunks: Seq<ChunkView>) -> bool {
    forall|i: int|
        0 <= i < chunks.len() ==> {
            &&& chain::disjoint(#[trigger] chunks[i], chunk)
            &&& chain::right_above(chunks[i], chunk) ==> chain::linked(chunks[i], chunk)
            &&& chain::right_above(chunk, chunks[i]) ==> chain::linked(chunk, chunks[i])
        }
}

/// A chunk passes as fit to be inserted exactly if it can stand among all the chunks
/// of the dataset, though only two of them are looked at.
pub proof fn law_two_neighbors_tell(chunk: ChunkView, existing: Seq<ChunkView>)
    requires
        ordered(existing),
        chunk.first_block <= chunk.last_block,
    ensures
        chain::insertion_fault(chunk, existing) is None <==> fits_among(chunk, existing),
    decreases existing.len(),
{
    let to = chunk.last_block + 1;
    if existing.len() > 0 {
        let top = existing.last();
        let below = existing.drop_last();
        assert(ordered(below)) by {
            assert(forall|i: int| 0 <= i < below.len() ==> below[i] == existing[i]);
        }
        assert(fits_among(chunk, existing) <==> fits_among(chunk, below) && chain::neighbor_fault(chunk, top) is None)
            by {
            assert(forall|i: int| 0 <= i < below.len() ==> below[i] == existing[i]);
            assert(existing[existing.len() - 1] == top);
            if fits_among(chunk, existing) {
                assert forall|i: int| 0 <= i < below.len() implies {
                    &&& chain::disjoint(#[trigger] below[i], chunk)
                    &&& chain::right_above(below[i], chunk) ==> chain::linked(below[i], chunk)
                    &&& chain::right_above(chunk, below[i]) ==> chain::linked(chunk, below[i])
                } by {
                    assert(below[i] == existing[i]);
                }
            }
            if fits_among(chunk, below) && chain::neighbor_fault(chunk, top) is None {
                assert forall|i: int| 0 <= i < existing.len() implies {
                    &&& chain::disjoint(#[trigger] existing[i], chunk)
                    &&& chain::right_above(existing[i], chunk) ==> chain::linked(existing[i], chunk)
                    &&& chain::right_above(chunk, existing[i]) ==> chain::linked(chunk, existing[i])
                } by {
                    if i < below.len() {
                        assert(below[i] == existing[i]);
                    }
                }
            }
        }
        if top.first_block > to {
            law_two_neighbors_tell(chunk, below);
        } else {
            lemma_second_neighbor(chunk, existing);
        }
    }
}

/// Where the newest chunk begins right above `chunk` or lower, it and the next one
/// tell all.
proof fn lemma_second_neighbor(chunk: ChunkView, existing: Seq<ChunkView>)
    requires
        ordered(existing),
        existing.len() > 0,
        chunk.first_block <= chunk.last_block,
        existing.last().first_block <= chunk.last_block + 1,
    ensures
        chain::insertion_fault(chunk, existing) is None <==> fits_among(chunk, existing),
{
    let to = chunk.last_block + 1;
    let n = existing.len() as int;
    let top = existing.last();
    let below = existing.drop_last();
    assert(top == existing[n - 1]);
    let one = chain::newest_below(below, to, 1);
    let two = chain::newest_below(existing, to, 2);
    assert(two == seq![top] + one);
    assert(two[0] == top);
    assert(two.skip(1) =~= one);
    if below.len() > 0 {
        let second = below.last();
        assert(second == existing[n - 2]);
        assert(second.last_block < top.first_block);
        assert(chain::newest_below(below.drop_last(), to, 0) == Seq::<ChunkView>::empty());
        assert(one =~= seq![second]);
        assert(one[0] == second);
        assert(one.skip(1) =~= Seq::empty());
        reveal_with_fuel(chain::first_neighbor_fault, 3);
        if chain::neighbor_fault(chunk, top) is None && chain::neighbor_fault(chunk, second) is None {
            assert forall|i: int| 0 <= i < n implies {
                &&& chain::disjoint(#[trigger] existing[i], chunk)
                &&& chain::right_above(existing[i], chunk) ==> chain::linked(existing[i], chunk)
                &&& chain::right_above(chunk, existing[i]) ==> chain::linked(chunk, existing[i])
            } by {
                if i < n - 2 {
                    assert(existing[i].last_block < existing[n - 2].first_block);
                }
            }
        }
        if fits_among(chunk, existing) {
            assert(chain::disjoint(existing[n - 1], chunk));
            assert(chain::disjoint(existing[n - 2], chunk));
        }
    } else {
        assert(one =~= Seq::empty());
        reveal_with_fuel(chain::first_neighbor_fault, 2);
        if chain::neighbor_fault(chunk, top) is None {
            assert forall|i: int| 0 <= i < n implies {
                &&& chain::disjoint(#[trigger] existing[i], chunk)
                &&& chain::right_above(existing[i], chunk) ==> chain::linked(existing[i], chunk)
                &&& chain::right_above(chunk, existing[i]) ==> chain::linked(chunk, existing[i])
            } by {
                assert(i == n - 1);
            }
        }
        if fits_among(chunk, existing) {
            assert(chain::disjoint(existing[n - 1], chunk));
        }
    }
}

/// Among chunks in order at most one has a given height, and looking for it finds
/// that one; it finds none exactly if no chunk has the height.
pub proof fn law_a_height_is_looked_up_in_its_chunk(existing: Seq<ChunkView>, height: BlockNumber)
    requires
        ordered(existing),
    ensures
        ({
            let found = chain::selected(existing, height, Some(height));
            &&& found.len() <= 1
            &&& found.len() == 1 ==> existing.contains(found[0]) && found[0].first_block <= height
                <= found[0].last_block
            &&& found.len() == 0 <==> forall|i: int|
                0 <= i < existing.len() ==> !((#[trigger] existing[i]).first_block <= height
                    <= existing[i].last_block)
        }),
    decreases existing.len(),
{
    if existing.len() > 0 {
        let init = existing.drop_last();
        let n = existing.len() - 1;
        assert(forall|i: int| 0 <= i < init.len() ==> init[i] == existing[i]);
        assert(ordered(init));
        law_a_height_is_looked_up_in_its_chunk(init, height);
        let before = chain::selected(init, height, Some(height));
        let found = chain::selected(existing, height, Some(height));
        assert(existing[n] == existing.last());
        if before.len() == 1 {
            let i = choose|i: int| 0 <= i < init.len() && init[i] == before[0];
            assert(existing[i] == before[0]);
            assert(existing[i].last_block < existing[n].first_block);
            assert(existing.contains(found[0]));
        } else {
            if chain::reaches_into(existing.last(), height, Some(height)) {
                assert(found =~= seq![existing.last()]);
                assert(existing.contains(found[0]));
            } else {
                assert forall|i: int| 0 <= i < existing.len() implies !((#[trigger] existing[i]).first_block <= height
                    <= existing[i].last_block) by {
                    if i < n {
                        assert(init[i] == existing[i]);
                    }
                }
            }
        }
    }
}

/// The work of an index after one scan more.
pub open spec fn scanned_once(before: IndexWork, after: IndexWork, nanos: nat) -> bool {
    after == before.plus(IndexWork { nanos, operations: 1 })
}

/// A scan of an index is measured once, however many entries it has: removing the
/// entries of a chunk is one scan of each index, and adding them one scan of each
/// index that is switched on, if the dataset is indexed at all.
pub proof fn law_a_scan_is_measured_once(
    tx: TxView,
    dataset: Seq<char>,
    chunk: ChunkView,
    label: Option<DatasetLabelView>,
    reading: HashReadingView,
)
    ensures
        scanned_once(
            tx.metrics.block,
            tx.hashes_removed(dataset, chunk, reading).metrics.block,
            reading.block_time,
        ),
        scanned_once(
            tx.metrics.transaction,
            tx.hashes_removed(dataset, chunk, reading).metrics.transaction,
            reading.transaction_time,
        ),
        ({
            let added = tx.hashes_added(dataset, chunk, label, reading).metrics;
            let indexed = label matches Some(l) && index::indexed_kind(l.kind);
            &&& if indexed && tx.block_hash_index {
                scanned_once(tx.metrics.block, added.block, reading.block_time)
            } else {
                added.block == tx.metrics.block
            }
            &&& if indexed && tx.transaction_hash_index {
                scanned_once(tx.metrics.transaction, added.transaction, reading.transaction_time)
            } else {
                added.transaction == tx.metrics.transaction
            }
        }),
{
}

/// The two indexes are switched on independently of each other: with both on, a
/// chunk adds the entries that it adds with the one on and then those that it adds
/// with the other on.
pub proof fn law_index_switches_are_independent(
    tx: TxView,
    dataset: Seq<char>,
    chunk: ChunkView,
    label: Option<DatasetLabelView>,
    reading: HashReadingView,
)
    requires
        tx.staged.len() == 0,
    ensures
        ({
            let added = |blocks: bool, transactions: bool|
                (TxView { block_hash_index: blocks, transaction_hash_index: transactions, ..tx }).hashes_added(
                    dataset,
                    chunk,
                    label,
                    reading,
                ).staged;
            &&& added(true, true) == added(true, false) + added(false, true)
            &&& added(false, false) == Seq::<MutationView>::empty()
        }),
{
    let with_blocks = TxView { block_hash_index: true, transaction_hash_index: false, ..tx };
    let with_transactions = TxView { block_hash_index: false, transaction_hash_index: true, ..tx };
    let with_both = TxView { block_hash_index: true, transaction_hash_index: true, ..tx };
    let with_none = TxView { block_hash_index: false, transaction_hash_index: false, ..tx };
    assert(with_both.hashes_added(dataset, chunk, label, reading).staged =~= with_blocks.hashes_added(
        dataset,
        chunk,
        label,
        reading,
    ).staged + with_transactions.hashes_added(dataset, chunk, label, reading).staged);
    assert(with_none.hashes_added(dataset, chunk, label, reading).staged =~= Seq::<MutationView>::empty());
}

/// The state of the jitter generator after `n` draws; each draw is the state that it
/// leaves.
pub open spec fn jitter_state(state: u64, n: nat) -> u64
    decreases n,
{
    if n == 0 {
        state
    } else {
        retry::jitter_step(jitter_state(state, (n - 1) as nat))
    }
}

/// Whether one of the first `draws` draws from `state` is odd.
pub open spec fn draws_odd(state: u64, draws: nat) -> bool {
    exists|n: nat| 0 < n <= draws && #[trigger] jitter_state(state, n) % 2 == 1
}

/// A wait is drawn to the nanosecond, so that a short bound is not floored to zero. For
/// a bound of an even number of nanoseconds, as every number of whole microseconds is:
/// every draw from every state is below the bound; and of any draws, from any state,
/// one is above zero as soon as one is odd. From a fresh generator the first one is.
pub proof fn law_short_waits_are_not_floored(state: u64, draws: nat, bound: nat)
    requires
        draws > 0,
        0 < bound <= u64::MAX,
        bound % 2 == 0,
    ensures
        forall|n: nat| 0 < n <= draws ==> retry::jitter_wait(#[trigger] jitter_state(state, n), bound) < bound,
        draws_odd(state, draws) ==> exists|n: nat|
            0 < n <= draws && retry::jitter_wait(#[trigger] jitter_state(state, n), bound) > 0,
        draws_odd(0, draws),
{
    assert forall|n: nat| 0 < n <= draws implies retry::jitter_wait(#[trigger] jitter_state(state, n), bound)
        < bound by {
        vstd::arithmetic::div_mod::lemma_mod_bound(jitter_state(state, n) as int, bound as int);
    }
    assert(jitter_state(0, 1) == retry::JITTER_SEED) by {
        reveal_with_fuel(jitter_state, 2);
    }
    assert(jitter_state(0, 1) % 2 == 1);
    if draws_odd(state, draws) {
        let n = choose|n: nat| 0 < n <= draws && #[trigger] jitter_state(state, n) % 2 == 1;
        lemma_odd_is_no_multiple(jitter_state(state, n) as nat, bound);
        assert(retry::jitter_wait(jitter_state(state, n), bound) > 0);
    }
}

proof fn lemma_odd_is_no_multiple(odd: nat, even: nat)
    requires
        odd % 2 == 1,
        even > 0,
        even % 2 == 0,
    ensures
        odd % even > 0,
{
    if odd % even == 0 {
        vstd::arithmetic::div_mod::lemma_fundamental_div_mod(odd as int, even as int);
        let half = even / 2;
        let times = odd / even;
        assert(even * times == 2 * (half * times)) by (nonlinear_arith)
            requires
                even == 2 * half,
        ;
    }
}

/// The lowest bit of the next draw: six bits of the state, added up.
pub open spec fn tapped_bit(state: u64) -> u64 {
    (state ^ (state >> 2) ^ (state >> 12) ^ (state >> 14) ^ (state >> 27) ^ (state >> 39)) & 1
}

/// The lowest bit that the shifts leave.
proof fn lemma_shifted_bit(state: u64)
    ensures
        retry::jitter_shifted(state) % 2 == tapped_bit(state),
{
    let a = state ^ (state >> 12);
    let b = a ^ (a << 25);
    assert((b ^ (b >> 27)) % 2 == (state ^ (state >> 2) ^ (state >> 12) ^ (state >> 14) ^ (state >> 27) ^ (state
        >> 39)) & 1) by (bit_vector)
        requires
            a == state ^ (state >> 12),
            b == a ^ (a << 25),
    ;
}

/// A product of an odd number with another has the lowest bit of that.
proof fn lemma_odd_times(x: int, half: int, product: int)
    requires
        product == x * (2 * half + 1),
    ensures
        product % 2 == x % 2,
{
    let even = x * half;
    assert(product == 2 * even + x) by (nonlinear_arith)
        requires
            product == x * (2 * half + 1),
            even == x * half,
    ;
}

/// What is left of a number by an even one has its lowest bit.
proof fn lemma_cut_keeps_parity(n: int, half: int)
    requires
        half > 0,
    ensures
        (n % (2 * half)) % 2 == n % 2,
{
    vstd::arithmetic::div_mod::lemma_mod_mod(n, 2, half);
}

/// The factor is odd, so it keeps the lowest bit.
proof fn lemma_factor_keeps_parity(x: u64)
    ensures
        ((x * retry::JITTER_FACTOR) % 0x1_0000_0000_0000_0000) % 2 == x % 2,
{
    lemma_odd_times(x as int, 0x12a2fa48a7b66e8e, x * retry::JITTER_FACTOR);
    lemma_cut_keeps_parity(x * retry::JITTER_FACTOR, 0x8000_0000_0000_0000);
}

/// From every state but zero the next draw is odd exactly if six bits of the state add
/// up to an odd number, which is so of half of all states: of any two that differ in
/// the lowest bit alone, it is so of one.
pub proof fn law_half_of_the_states_draw_odd(state: u64)
    ensures
        state != 0 ==> retry::jitter_step(state) % 2 == tapped_bit(state),
        tapped_bit(state) + tapped_bit(state ^ 1) == 1,
{
    lemma_shifted_bit(state);
    lemma_factor_keeps_parity(retry::jitter_shifted(state));
    lemma_flipped_bit(state);
}

proof fn lemma_flipped_bit(state: u64)
    ensures
        tapped_bit(state) + tapped_bit(state ^ 1) == 1,
{
    let flipped = state ^ 1;
    assert(((state ^ (state >> 2) ^ (state >> 12) ^ (state >> 14) ^ (state >> 27) ^ (state >> 39)) & 1) + ((flipped ^ (
    flipped >> 2) ^ (flipped >> 12) ^ (flipped >> 14) ^ (flipped >> 27) ^ (flipped >> 39)) & 1) == 1) by (bit_vector)
        requires
            flipped == state ^ 1,
    ;
}

/// The number that the shifts make `c` of.
spec fn unshifted(c: u64) -> u64 {
    let b = c ^ (c >> 27) ^ (c >> 54);
    let a = b ^ (b << 25) ^ (b << 50);
    a ^ (a >> 12) ^ (a >> 24) ^ (a >> 36) ^ (a >> 48) ^ (a >> 60)
}

proof fn lemma_unshifted(c: u64)
    ensures
        retry::jitter_shifted(unshifted(c)) == c,
{
    let b = c ^ (c >> 27) ^ (c >> 54);
    let a = b ^ (b << 25) ^ (b << 50);
    let s = a ^ (a >> 12) ^ (a >> 24) ^ (a >> 36) ^ (a >> 48) ^ (a >> 60);
    assert(s ^ (s >> 12) == a) by (bit_vector)
        requires
            s == a ^ (a >> 12) ^ (a >> 24) ^ (a >> 36) ^ (a >> 48) ^ (a >> 60),
    ;
    assert(a ^ (a << 25) == b) by (bit_vector)
        requires
            a == b ^ (b << 25) ^ (b << 50),
    ;
    assert(b ^ (b >> 27) == c) by (bit_vector)
        requires
            b == c ^ (c >> 27) ^ (c >> 54),
    ;
}

/// Multiplying by an inverse and then by the number itself, below some modulus, gives
/// back what was multiplied.
proof fn lemma_multiplied_back(d: int, f: int, g: int, k: int, m: int)
    requires
        0 <= d < m,
        f * g == k * m + 1,
    ensures
        (((d * g) % m) * f) % m == d,
{
    vstd::arithmetic::div_mod::lemma_mul_mod_noop_left(d * g, f, m);
    assert((d * g) * f == m * (d * k) + d) by (nonlinear_arith)
        requires
            f * g == k * m + 1,
    ;
    vstd::arithmetic::div_mod::lemma_mod_multiples_vanish(d * k, d, m);
    vstd::arithmetic::div_mod::lemma_small_mod(d as nat, m as nat);
}

/// Every draw but zero comes from some state.
proof fn lemma_every_draw_comes(draw: u64) -> (state: u64)
    requires
        draw != 0,
    ensures
        state != 0,
        retry::jitter_step(state) == draw,
{
    let m: int = 0x1_0000_0000_0000_0000;
    let c = ((draw * JITTER_INVERSE) % m) as u64;
    vstd::arithmetic::div_mod::lemma_mod_bound(draw * JITTER_INVERSE, m);
    lemma_multiplied_back(
        draw as int,
        retry::JITTER_FACTOR as int,
        JITTER_INVERSE as int,
        0xcf65b3f17bf4a6b,
        m,
    );
    let state = unshifted(c);
    lemma_unshifted(c);
    if state == 0 {
        assert(retry::jitter_shifted(0) == 0) by (bit_vector);
        assert(c == 0);
    }
    state
}

/// Every wait below its bound can be drawn, to the nanosecond: neither is a short bound
/// floored to zero, nor a long one pinned at some height below it.
pub proof fn law_every_wait_can_be_drawn(bound: nat, wait: nat)
    requires
        wait < bound,
        wait < u64::MAX,
    ensures
        exists|state: u64| state != 0 && retry::jitter_wait(#[trigger] retry::jitter_step(state), bound) == wait,
{
    let limit = crate::duration::smaller(bound, u64::MAX as nat);
    let draw = if wait == 0 {
        limit as u64
    } else {
        wait as u64
    };
    let state = lemma_every_draw_comes(draw);
    if wait == 0 {
        vstd::arithmetic::div_mod::lemma_mod_self_0(limit as int);
    } else {
        vstd::arithmetic::div_mod::lemma_small_mod(wait, limit);
    }
    assert(retry::jitter_wait(retry::jitter_step(state), bound) == wait);
}

/// The bound of a wait is not pinned at a factor of two to the sixteenth: past that
/// retry it lies above, as far as the longest wait allows.
pub proof fn law_waits_climb_past_sixteen_doublings(policy: RetryPolicyView, retry: u32)
    requires
        retry > 16,
        policy.base_backoff > 0,
        policy.max_backoff > policy.base_backoff * 0x1_0000,
    ensures
        policy.backoff_cap(retry) > policy.base_backoff * 0x1_0000,
{
    let factor = retry::backoff_factor(retry);
    vstd::arithmetic::power2::lemma2_to64();
    if retry < 32 {
        vstd::arithmetic::power2::lemma_pow2_strictly_increases(16, retry as nat);
    }
    assert(factor > 0x1_0000);
    assert(policy.base_backoff * factor > policy.base_backoff * 0x1_0000) by (nonlinear_arith)
        requires
            factor > 0x1_0000,
            policy.base_backoff > 0,
    ;
}

/// With a first wait of a microsecond and a longest one of ten seconds, the waits from
/// retry number twenty-four on are below ten seconds, from every state, and of those
/// drawn from a fresh generator one is longer than two to the sixteenth microseconds.
pub proof fn law_late_waits_are_long(policy: RetryPolicyView, retry: u32, state: u64, draws: nat)
    requires
        retry >= 24,
        draws > 0,
        policy.base_backoff == 1_000,
        policy.max_backoff == 10_000_000_000,
    ensures
        forall|n: nat|
            0 < n <= draws ==> retry::jitter_wait(#[trigger] jitter_state(state, n), policy.backoff_cap(retry))
                < 10_000_000_000,
        exists|n: nat|
            0 < n <= draws && retry::jitter_wait(#[trigger] jitter_state(0, n), policy.backoff_cap(retry))
                > 65_536_000,
{
    vstd::arithmetic::power2::lemma2_to64();
    if 24 < retry < 32 {
        vstd::arithmetic::power2::lemma_pow2_strictly_increases(24, retry as nat);
    }
    assert(retry::backoff_factor(retry) >= 0x100_0000);
    assert(policy.backoff_cap(retry) == 10_000_000_000);
    law_short_waits_are_not_floored(state, draws, 10_000_000_000);
    assert(jitter_state(0, 1) == retry::JITTER_SEED) by {
        reveal_with_fuel(jitter_state, 2);
    }
    assert(0x9E3779B97F4A7C15nat % 10_000_000_000nat == 9_323_198_485);
    assert(retry::jitter_wait(jitter_state(0, 1), 10_000_000_000) > 65_536_000);
}

/// Merging with no work at all changes nothing.
pub proof fn law_merging_nothing_changes_nothing(work: HashIndexWriteView)
    requires
        work.in_range(),
    ensures
        work.merged(HashIndexWriteView::none()) == work,
        HashIndexWriteView::none().merged(work) == work,
{
}

} // verus!
