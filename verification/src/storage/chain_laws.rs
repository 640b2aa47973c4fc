//! What keeps the chunks of a dataset a chain, said of heights and hashes.
use crate::storage::chain::{self, ForkStep, ParentHash, StoredHeadView};
use crate::storage::tx::{self, TxErrorView};
use crate::types::{BlockNumber, ChunkView, TableId};
use vstd::prelude::*;

verus! {

/// Whether `chunk` has a block at that height.
pub open spec fn has_height(chunk: ChunkView, height: int) -> bool {
    chunk.first_block <= height <= chunk.last_block
}

/// Whether each of the chunks has a block, and lies above all those before it.
pub open spec fn ascending(chunks: Seq<ChunkView>) -> bool {
    &&& forall|i: int| 0 <= i < chunks.len() ==> (#[trigger] chunks[i]).first_block <= chunks[i].last_block
    &&& forall|i: int, j: int|
        0 <= i < j < chunks.len() ==> (#[trigger] chunks[i]).last_block < (#[trigger] chunks[j]).first_block
}

/// Whether no height is in both chunks.
pub open spec fn no_common_height(a: ChunkView, b: ChunkView) -> bool {
    forall|height: int| !(#[trigger] has_height(a, height) && has_height(b, height))
}

/// Whether the chunks, where one begins at the height after the last one of the
/// other, meet in the same block: the one names it as its parent, the other as its
/// last.
pub open spec fn meet(a: ChunkView, b: ChunkView) -> bool {
    &&& a.last_block + 1 == b.first_block ==> a.last_block_hash == b.parent_block_hash
    &&& b.last_block + 1 == a.first_block ==> b.last_block_hash == a.parent_block_hash
}

proof fn lemma_fault_with_one(chunk: ChunkView, n: ChunkView)
    requires
        chunk.first_block <= chunk.last_block,
        n.first_block <= n.last_block,
    ensures
        chain::neighbor_fault(chunk, n) is None <==> no_common_height(chunk, n) && meet(chunk, n),
        !no_common_height(chunk, n) ==> chain::neighbor_fault(chunk, n) == Some(
            TxErrorView::Overlap { chunk, existing: n },
        ),
        no_common_height(chunk, n) && !meet(chunk, n) ==> chain::neighbor_fault(chunk, n) == Some(
            TxErrorView::BrokenLink { chunk, neighbor: n },
        ),
{
    let start = if chunk.first_block >= n.first_block {
        chunk.first_block as int
    } else {
        n.first_block as int
    };
    if no_common_height(chunk, n) {
        assert(!(has_height(chunk, start) && has_height(n, start)));
    } else {
        let height = choose|height: int| has_height(chunk, height) && has_height(n, height);
        assert(has_height(chunk, height) && has_height(n, height));
    }
}

/// How many of the chunks, oldest first, begin at `to` or below.
proof fn lemma_two_newest(chunks: Seq<ChunkView>, to: int) -> (m: int)
    requires
        ascending(chunks),
    ensures
        0 <= m <= chunks.len(),
        forall|i: int| 0 <= i < m ==> (#[trigger] chunks[i]).first_block <= to,
        forall|i: int| m <= i < chunks.len() ==> (#[trigger] chunks[i]).first_block > to,
        m == 0 ==> chain::newest_below(chunks, to, 2) == Seq::<ChunkView>::empty(),
        m == 1 ==> chain::newest_below(chunks, to, 2) == seq![chunks[0]],
        m >= 2 ==> chain::newest_below(chunks, to, 2) == seq![chunks[m - 1], chunks[m - 2]],
    decreases chunks.len(),
{
    let n = chunks.len() as int;
    if n == 0 {
        0
    } else {
        let init = chunks.drop_last();
        assert forall|i: int| 0 <= i < init.len() implies #[trigger] init[i] == chunks[i] by {}
        assert(chunks.last() == chunks[n - 1]);
        if chunks[n - 1].first_block > to {
            let m = lemma_two_newest(init, to);
            assert forall|i: int| m <= i < n implies (#[trigger] chunks[i]).first_block > to by {
                if i < n - 1 {
                    assert(init[i].first_block > to);
                }
            }
            m
        } else {
            let one = chain::newest_below(init, to, 1);
            if n >= 2 {
                assert(init.last() == chunks[n - 2]);
                assert(chunks[n - 2].last_block < chunks[n - 1].first_block);
                assert(chain::newest_below(init.drop_last(), to, 0) == Seq::<ChunkView>::empty());
                assert(one =~= seq![chunks[n - 2]]);
                assert(chain::newest_below(chunks, to, 2) =~= seq![chunks[n - 1], chunks[n - 2]]);
            } else {
                assert(one =~= Seq::<ChunkView>::empty());
                assert(chain::newest_below(chunks, to, 2) =~= seq![chunks[0]]);
            }
            assert forall|i: int| 0 <= i < n implies (#[trigger] chunks[i]).first_block <= to by {
                if i < n - 1 {
                    assert(chunks[i].last_block < chunks[n - 1].first_block);
                }
            }
            n
        }
    }
}

/// A chunk may be inserted among chunks in ascending order exactly if it has a block,
/// no height of it is a height of any of them, and it meets each of them that is right
/// next to it in the same block.
pub proof fn law_inserted_chunks_share_no_height(chunk: ChunkView, existing: Seq<ChunkView>)
    requires
        ascending(existing),
    ensures
        chain::insertion_fault(chunk, existing) is None <==> {
            &&& chunk.first_block <= chunk.last_block
            &&& forall|i: int, height: int|
                0 <= i < existing.len() ==> !(#[trigger] has_height(existing[i], height) && has_height(chunk, height))
            &&& forall|i: int|
                0 <= i < existing.len() && (#[trigger] existing[i]).last_block + 1 == chunk.first_block
                    ==> existing[i].last_block_hash == chunk.parent_block_hash
            &&& forall|i: int|
                0 <= i < existing.len() && chunk.last_block + 1 == (#[trigger] existing[i]).first_block
                    ==> chunk.last_block_hash == existing[i].parent_block_hash
        },
{
    if chunk.first_block <= chunk.last_block {
        lemma_insertion(chunk, existing);
        let fits = forall|i: int|
            0 <= i < existing.len() ==> no_common_height(chunk, #[trigger] existing[i]) && meet(chunk, existing[i]);
        if fits {
            assert forall|i: int, height: int| 0 <= i < existing.len() implies !(#[trigger] has_height(
                existing[i],
                height,
            ) && has_height(chunk, height)) by {
                assert(no_common_height(chunk, existing[i]));
                assert(!(has_height(chunk, height) && has_height(existing[i], height)));
            }
            assert forall|i: int|
                0 <= i < existing.len() && (#[trigger] existing[i]).last_block + 1 == chunk.first_block implies
                existing[i].last_block_hash == chunk.parent_block_hash by {
                assert(meet(chunk, existing[i]));
            }
            assert forall|i: int|
                0 <= i < existing.len() && chunk.last_block + 1 == (#[trigger] existing[i]).first_block implies
                chunk.last_block_hash == existing[i].parent_block_hash by {
                assert(meet(chunk, existing[i]));
            }
        } else {
            let i = choose|i: int|
                0 <= i < existing.len() && !(no_common_height(chunk, #[trigger] existing[i]) && meet(
                    chunk,
                    existing[i],
                ));
            if !no_common_height(chunk, existing[i]) {
                let height = choose|height: int| has_height(chunk, height) && has_height(existing[i], height);
                assert(has_height(existing[i], height) && has_height(chunk, height));
            }
        }
    }
}

/// A chunk that may not be inserted among chunks in ascending order is refused with
/// the newest of them that stands in its way: as an overlap if they have a height in
/// common, and as a broken link if they are right next to each other and do not meet
/// in the same block. Only a chunk without a block is refused on its own account.
pub proof fn law_why_an_insertion_is_refused(chunk: ChunkView, existing: Seq<ChunkView>)
    requires
        ascending(existing),
    ensures
        chain::insertion_fault(chunk, existing) == Some(TxErrorView::EmptyChunk) <==> chunk.first_block
            > chunk.last_block,
        chain::insertion_fault(chunk, existing) is Some && chunk.first_block <= chunk.last_block ==> exists|i: int|
            0 <= i < existing.len() && is_newest_in_the_way(chunk, existing, i) && chain::insertion_fault(
                chunk,
                existing,
            ) == Some(
                if no_common_height(chunk, existing[i]) {
                    TxErrorView::BrokenLink { chunk, neighbor: existing[i] }
                } else {
                    TxErrorView::Overlap { chunk, existing: existing[i] }
                },
            ),
{
    if chunk.first_block <= chunk.last_block {
        lemma_insertion(chunk, existing);
    }
}

/// Whether the chunk at `i` stands in the way of `chunk`, and none after it does.
pub open spec fn is_newest_in_the_way(chunk: ChunkView, existing: Seq<ChunkView>, i: int) -> bool {
    &&& !(no_common_height(chunk, existing[i]) && meet(chunk, existing[i]))
    &&& forall|j: int|
        i < j < existing.len() ==> no_common_height(chunk, #[trigger] existing[j]) && meet(chunk, existing[j])
}

proof fn lemma_insertion(chunk: ChunkView, existing: Seq<ChunkView>)
    requires
        ascending(existing),
        chunk.first_block <= chunk.last_block,
    ensures
        chain::insertion_fault(chunk, existing) is None <==> forall|i: int|
            0 <= i < existing.len() ==> no_common_height(chunk, #[trigger] existing[i]) && meet(chunk, existing[i]),
        chain::insertion_fault(chunk, existing) != Some(TxErrorView::EmptyChunk),
        chain::insertion_fault(chunk, existing) is Some ==> exists|i: int|
            0 <= i < existing.len() && is_newest_in_the_way(chunk, existing, i) && chain::insertion_fault(
                chunk,
                existing,
            ) == Some(
                if no_common_height(chunk, existing[i]) {
                    TxErrorView::BrokenLink { chunk, neighbor: existing[i] }
                } else {
                    TxErrorView::Overlap { chunk, existing: existing[i] }
                },
            ),
{
    let to = chunk.last_block + 1;
    let two = chain::newest_below(existing, to, 2);
    let m = lemma_two_newest(existing, to);
    reveal_with_fuel(chain::first_neighbor_fault, 3);
    assert forall|i: int| m <= i < existing.len() implies no_common_height(chunk, #[trigger] existing[i]) && meet(
        chunk,
        existing[i],
    ) by {
        assert forall|height: int| !(#[trigger] has_height(chunk, height) && has_height(existing[i], height)) by {}
    }
    if m >= 1 {
        lemma_fault_with_one(chunk, existing[m - 1]);
        assert(two[0] == existing[m - 1]);
    }
    if m >= 2 {
        lemma_fault_with_one(chunk, existing[m - 2]);
        assert(two[1] == existing[m - 2]);
        assert(two.skip(1) =~= seq![existing[m - 2]]);
        assert(two.skip(1)[0] == existing[m - 2]);
        assert(two.skip(1).skip(1) =~= Seq::<ChunkView>::empty());
    } else if m == 1 {
        assert(two.skip(1) =~= Seq::<ChunkView>::empty());
    }
    if chain::insertion_fault(chunk, existing) is None {
        assert forall|i: int| 0 <= i < existing.len() implies no_common_height(chunk, #[trigger] existing[i]) && meet(
            chunk,
            existing[i],
        ) by {
            if i < m - 2 {
                lemma_far_below(chunk, existing, m, i);
            }
        }
    } else if !(no_common_height(chunk, existing[m - 1]) && meet(chunk, existing[m - 1])) {
        assert(is_newest_in_the_way(chunk, existing, m - 1));
    } else {
        assert(is_newest_in_the_way(chunk, existing, m - 2));
    }
}

/// A chunk below two that do not stand in the way does not either.
proof fn lemma_far_below(chunk: ChunkView, existing: Seq<ChunkView>, m: int, i: int)
    requires
        ascending(existing),
        chunk.first_block <= chunk.last_block,
        0 <= i < m - 2,
        m <= existing.len(),
        existing[m - 1].first_block <= chunk.last_block + 1,
        no_common_height(chunk, existing[m - 2]),
    ensures
        no_common_height(chunk, existing[i]) && meet(chunk, existing[i]),
{
    let low = existing[m - 2];
    let high = existing[m - 1];
    assert(low.last_block < high.first_block);
    assert(existing[i].last_block < low.first_block);
    assert(!(has_height(chunk, low.last_block as int) && has_height(low, low.last_block as int)));
    assert(chunk.first_block > low.last_block);
    assert forall|height: int| !(#[trigger] has_height(chunk, height) && has_height(existing[i], height)) by {}
}

/// A chunk put on top replaces, of the existing chunks with the newest first, those
/// before the first that begins below it, and no other. It goes on top of that one
/// exactly if that one ends at the height before its first and in the block it names
/// as its parent, or if there is none. If not, the error names that one: as a broken
/// chain if only the block is another, as a gap if heights are missing between them,
/// and as an overlap if that one ends at or above its first height.
pub proof fn law_a_fork_replaces_what_it_covers(chunk: ChunkView, heads: Seq<StoredHeadView>)
    ensures
        ({
            let kept = chain::first_kept(chunk, heads, 0) as int;
            let fault = chain::fork_fault(chunk, heads);
            &&& 0 <= kept <= heads.len()
            &&& forall|i: int| 0 <= i < kept ==> chunk.first_block <= (#[trigger] heads[i]).chunk.first_block
            &&& kept == heads.len() ==> fault is None
            &&& kept < heads.len() ==> {
                let below = heads[kept].chunk;
                &&& below.first_block < chunk.first_block
                &&& below.last_block + 1 == chunk.first_block && below.last_block_hash == chunk.parent_block_hash <==> fault is None
                &&& below.last_block + 1 == chunk.first_block && below.last_block_hash != chunk.parent_block_hash <==> fault == Some(
                    TxErrorView::BrokenChain { chunk, parent: below },
                )
                &&& below.last_block + 1 < chunk.first_block <==> fault == Some(TxErrorView::Gap { chunk, below })
                &&& below.last_block >= chunk.first_block <==> fault == Some(
                    TxErrorView::Overlap { chunk, existing: below },
                )
            }
        }),
{
    lemma_first_below(chunk, heads, 0);
}

proof fn lemma_first_below(chunk: ChunkView, heads: Seq<StoredHeadView>, from: nat)
    requires
        from <= heads.len(),
    ensures
        ({
            let kept = chain::first_kept(chunk, heads, from) as int;
            &&& from <= kept <= heads.len()
            &&& forall|i: int| from <= i < kept ==> chunk.first_block <= (#[trigger] heads[i]).chunk.first_block
            &&& kept < heads.len() ==> heads[kept].chunk.first_block < chunk.first_block
        }),
    decreases heads.len() - from,
{
    if from < heads.len() && chunk.first_block <= heads[from as int].chunk.first_block {
        lemma_first_below(chunk, heads, from + 1);
    }
}

/// What is done about one existing chunk: it is replaced exactly if it does not begin
/// below the new one, and built upon exactly if the new one begins right above it, on
/// its last block.
pub proof fn law_replaced_or_built_upon(chunk: ChunkView, head: ChunkView)
    ensures
        chain::fork_step_of(chunk, head) == Ok::<ForkStep, TxErrorView>(ForkStep::Replace) <==> head.first_block
            >= chunk.first_block,
        chain::fork_step_of(chunk, head) == Ok::<ForkStep, TxErrorView>(ForkStep::Attach) <==> head.first_block
            < chunk.first_block && chunk.first_block == head.last_block + 1 && chunk.parent_block_hash
            == head.last_block_hash,
        chain::fork_step_of(chunk, head) is Err ==> (chain::fork_step_of(chunk, head)->Err_0 == if chunk.first_block
            <= head.last_block {
            TxErrorView::Overlap { chunk, existing: head }
        } else if chunk.first_block == head.last_block + 1 {
            TxErrorView::BrokenChain { chunk, parent: head }
        } else {
            TxErrorView::Gap { chunk, below: head }
        }),
{
}

/// The chunks listed for a range of heights are just those with a height in it, in
/// their order, each as often as it stands there.
pub proof fn law_chunks_are_listed_by_height(chunks: Seq<ChunkView>, from: BlockNumber, to: Option<BlockNumber>)
    ensures
        chain::selected(chunks, from, to) == chunks.filter(
            |c: ChunkView| c.last_block >= from && (to is None || c.first_block <= to.unwrap()),
        ),
    decreases chunks.len(),
{
    reveal(Seq::filter);
    if chunks.len() > 0 {
        law_chunks_are_listed_by_height(chunks.drop_last(), from, to);
    }
}

/// A chunk that has a block reaches into a range of heights exactly if it has a height
/// of the range.
pub proof fn law_reaching_is_having_a_height(chunk: ChunkView, from: BlockNumber, to: Option<BlockNumber>)
    requires
        chunk.first_block <= chunk.last_block,
        to is Some ==> from <= to.unwrap(),
    ensures
        chain::reaches_into(chunk, from, to) <==> exists|height: int|
            from <= height && (to is None || height <= to.unwrap()) && #[trigger] has_height(chunk, height),
{
    if chain::reaches_into(chunk, from, to) {
        let height = if chunk.first_block >= from {
            chunk.first_block as int
        } else {
            from as int
        };
        assert(has_height(chunk, height));
    }
}

/// A parent hash that a chunk knows matches exactly if it is the one expected; if not,
/// the known one is told.
pub proof fn law_a_known_parent_is_compared(known: Seq<char>, expected: Seq<char>, other: String, table: TableId)
    ensures
        chain::says_parent(ParentHash::Matches, known, expected) <==> known == expected,
        chain::says_parent(ParentHash::Differs(other), known, expected) <==> other@ == known && known != expected,
        !chain::says_parent(ParentHash::InTable(table), known, expected),
{
}

/// The tables that are looked for are those called `blocks` and `transactions`.
pub proof fn law_tables_are_found_by_name(chunk: ChunkView, i: int)
    requires
        0 <= i < chunk.tables.len(),
        forall|j: int, k: int|
            0 <= j < k < chunk.tables.len() ==> (#[trigger] chunk.tables[j]).0 != (#[trigger] chunk.tables[k]).0,
    ensures
        chunk.tables[i].0 == "blocks"@ ==> tx::blocks_table(chunk) == Some(chunk.tables[i].1),
        chunk.tables[i].0 == "transactions"@ ==> tx::transactions_table(chunk) == Some(chunk.tables[i].1),
        tx::blocks_table(chunk) matches Some(table) ==> chunk.tables.contains(("blocks"@, table)),
        tx::transactions_table(chunk) matches Some(table) ==> chunk.tables.contains(("transactions"@, table)),
{
    lemma_named(chunk.tables, "blocks"@, i);
    lemma_named(chunk.tables, "transactions"@, i);
}

proof fn lemma_named(tables: Seq<(Seq<char>, TableId)>, name: Seq<char>, i: int)
    requires
        0 <= i < tables.len(),
        forall|j: int, k: int| 0 <= j < k < tables.len() ==> (#[trigger] tables[j]).0 != (#[trigger] tables[k]).0,
    ensures
        tables[i].0 == name ==> crate::types::table_named(tables, name) == Some(tables[i].1),
        crate::types::table_named(tables, name) matches Some(table) ==> tables.contains((name, table)),
{
    if crate::types::table_named(tables, name) is Some {
        let k = choose|k: int| 0 <= k < tables.len() && (#[trigger] tables[k]).0 == name;
        assert(tables[k] == (name, tables[k].1));
        if tables[i].0 == name {
            assert(k == i) by {
                if k < i {
                    assert(tables[k].0 != tables[i].0);
                } else if i < k {
                    assert(tables[i].0 != tables[k].0);
                }
            }
        }
    }
}

} // verus!
