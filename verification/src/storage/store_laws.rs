//! What a transaction makes of the store once it is committed.
use crate::storage::chain::{self, StoredHeadView};
use crate::storage::index;
use crate::storage::laws;
use crate::storage::mutation::{self, MutationView, StoreView};
use crate::storage::tx::{self, HashReadingView, TransactionRowView, TxView};
use crate::types::{BlockNumber, BlockRefView, ChunkView, DatasetLabelView, TableId};
use vstd::prelude::*;

verus! {

/// What an index holds: bytes by dataset and hash.
pub type Entries = Map<(Seq<char>, Seq<char>), Seq<u8>>;

/// The hashes of blocks, each with its bytes in the index.
pub open spec fn block_pairs(blocks: Seq<BlockRefView>) -> Seq<(Seq<char>, Seq<u8>)> {
    blocks.map_values(|b: BlockRefView| (b.hash, index::be_bytes_8(b.number)))
}

/// The hashes of transactions, each with its bytes in the index.
pub open spec fn transaction_pairs(rows: Seq<TransactionRowView>) -> Seq<(Seq<char>, Seq<u8>)> {
    rows.map_values(
        |r: TransactionRowView|
            (r.hash, index::be_bytes_8(r.block_number) + index::be_bytes_4(r.transaction_index)),
    )
}

/// Whether the list has that hash.
pub open spec fn lists(pairs: Seq<(Seq<char>, Seq<u8>)>, hash: Seq<char>) -> bool {
    exists|i: int| 0 <= i < pairs.len() && (#[trigger] pairs[i]).0 == hash
}

/// Whether no later pair has the hash of the pair at `i`.
pub open spec fn lasts(pairs: Seq<(Seq<char>, Seq<u8>)>, i: int) -> bool {
    forall|j: int| i < j < pairs.len() ==> (#[trigger] pairs[j]).0 != pairs[i].0
}

/// The index after the pairs were put in, in order.
pub open spec fn put_all(entries: Entries, dataset: Seq<char>, pairs: Seq<(Seq<char>, Seq<u8>)>) -> Entries
    decreases pairs.len(),
{
    if pairs.len() == 0 {
        entries
    } else {
        put_all(entries, dataset, pairs.drop_last()).insert((dataset, pairs.last().0), pairs.last().1)
    }
}

/// The index without the hashes of the list.
pub open spec fn without(entries: Entries, dataset: Seq<char>, pairs: Seq<(Seq<char>, Seq<u8>)>) -> Entries {
    entries.restrict(Set::new(|key: (Seq<char>, Seq<char>)| !(key.0 == dataset && lists(pairs, key.1))))
}

proof fn lemma_lists_last(pairs: Seq<(Seq<char>, Seq<u8>)>, hash: Seq<char>)
    requires
        pairs.len() > 0,
    ensures
        lists(pairs, hash) <==> lists(pairs.drop_last(), hash) || pairs.last().0 == hash,
{
    let init = pairs.drop_last();
    assert(pairs.last() == pairs[pairs.len() - 1]);
    if lists(pairs, hash) && pairs.last().0 != hash {
        let i = choose|i: int| 0 <= i < pairs.len() && (#[trigger] pairs[i]).0 == hash;
        assert(init[i] == pairs[i]);
    }
    if lists(init, hash) {
        let i = choose|i: int| 0 <= i < init.len() && (#[trigger] init[i]).0 == hash;
        assert(pairs[i] == init[i]);
    }
}

/// Putting pairs in touches no entry but theirs.
proof fn lemma_put_all_elsewhere(
    entries: Entries,
    dataset: Seq<char>,
    pairs: Seq<(Seq<char>, Seq<u8>)>,
    key: (Seq<char>, Seq<char>),
)
    requires
        !(key.0 == dataset && lists(pairs, key.1)),
    ensures
        put_all(entries, dataset, pairs).contains_key(key) == entries.contains_key(key),
        put_all(entries, dataset, pairs)[key] == entries[key],
    decreases pairs.len(),
{
    if pairs.len() > 0 {
        lemma_lists_last(pairs, key.1);
        lemma_put_all_elsewhere(entries, dataset, pairs.drop_last(), key);
    }
}

/// Putting pairs in leaves each hash with the bytes of its last pair.
proof fn lemma_put_all_here(entries: Entries, dataset: Seq<char>, pairs: Seq<(Seq<char>, Seq<u8>)>, i: int)
    requires
        0 <= i < pairs.len(),
        lasts(pairs, i),
    ensures
        put_all(entries, dataset, pairs).contains_pair((dataset, pairs[i].0), pairs[i].1),
    decreases pairs.len(),
{
    let init = pairs.drop_last();
    assert(pairs.last() == pairs[pairs.len() - 1]);
    if i < init.len() {
        assert(init[i] == pairs[i]);
        assert forall|j: int| i < j < init.len() implies (#[trigger] init[j]).0 != init[i].0 by {
            assert(init[j] == pairs[j]);
        }
        lemma_put_all_here(entries, dataset, init, i);
    }
}

/// Taking the last hash out of what is left.
proof fn lemma_without_last(entries: Entries, dataset: Seq<char>, pairs: Seq<(Seq<char>, Seq<u8>)>)
    requires
        pairs.len() > 0,
    ensures
        without(entries, dataset, pairs) == without(entries, dataset, pairs.drop_last()).remove(
            (dataset, pairs.last().0),
        ),
{
    assert forall|hash: Seq<char>|
        lists(pairs, hash) <==> lists(pairs.drop_last(), hash) || pairs.last().0 == hash by {
        lemma_lists_last(pairs, hash);
    }
    assert(without(entries, dataset, pairs) =~= without(entries, dataset, pairs.drop_last()).remove(
        (dataset, pairs.last().0),
    ));
}

/// Indexing blocks adds their entries and changes nothing else.
proof fn lemma_blocks_indexed(store: StoreView, dataset: Seq<char>, blocks: Seq<BlockRefView>)
    ensures
        store.after(tx::blocks_indexed(dataset, blocks)) == (StoreView {
            block_hashes: put_all(store.block_hashes, dataset, block_pairs(blocks)),
            ..store
        }),
    decreases blocks.len(),
{
    if blocks.len() > 0 {
        let init = blocks.drop_last();
        lemma_blocks_indexed(store, dataset, init);
        assert(tx::blocks_indexed(dataset, blocks).drop_last() =~= tx::blocks_indexed(dataset, init));
        assert(block_pairs(blocks).drop_last() =~= block_pairs(init));
    }
}

/// Indexing transactions adds their entries and changes nothing else.
proof fn lemma_transactions_indexed(store: StoreView, dataset: Seq<char>, rows: Seq<TransactionRowView>)
    ensures
        store.after(tx::transactions_indexed(dataset, rows)) == (StoreView {
            transaction_hashes: put_all(store.transaction_hashes, dataset, transaction_pairs(rows)),
            ..store
        }),
    decreases rows.len(),
{
    if rows.len() > 0 {
        let init = rows.drop_last();
        lemma_transactions_indexed(store, dataset, init);
        assert(tx::transactions_indexed(dataset, rows).drop_last() =~= tx::transactions_indexed(dataset, init));
        assert(transaction_pairs(rows).drop_last() =~= transaction_pairs(init));
    }
}

/// Unindexing blocks removes their entries and changes nothing else.
pub proof fn law_unindexing_removes_the_blocks(store: StoreView, dataset: Seq<char>, blocks: Seq<BlockRefView>)
    ensures
        store.after(tx::blocks_unindexed(dataset, blocks)) == (StoreView {
            block_hashes: without(store.block_hashes, dataset, block_pairs(blocks)),
            ..store
        }),
    decreases blocks.len(),
{
    let pairs = block_pairs(blocks);
    if blocks.len() == 0 {
        assert(without(store.block_hashes, dataset, pairs) =~= store.block_hashes);
    } else {
        let init = blocks.drop_last();
        law_unindexing_removes_the_blocks(store, dataset, init);
        assert(tx::blocks_unindexed(dataset, blocks).drop_last() =~= tx::blocks_unindexed(dataset, init));
        assert(pairs.drop_last() =~= block_pairs(init));
        lemma_without_last(store.block_hashes, dataset, pairs);
    }
}

/// Unindexing transactions removes their entries and changes nothing else.
pub proof fn law_unindexing_removes_the_transactions(
    store: StoreView,
    dataset: Seq<char>,
    rows: Seq<TransactionRowView>,
)
    ensures
        store.after(tx::transactions_unindexed(dataset, rows)) == (StoreView {
            transaction_hashes: without(store.transaction_hashes, dataset, transaction_pairs(rows)),
            ..store
        }),
    decreases rows.len(),
{
    let pairs = transaction_pairs(rows);
    if rows.len() == 0 {
        assert(without(store.transaction_hashes, dataset, pairs) =~= store.transaction_hashes);
    } else {
        let init = rows.drop_last();
        law_unindexing_removes_the_transactions(store, dataset, init);
        assert(tx::transactions_unindexed(dataset, rows).drop_last() =~= tx::transactions_unindexed(dataset, init));
        assert(pairs.drop_last() =~= transaction_pairs(init));
        lemma_without_last(store.transaction_hashes, dataset, pairs);
    }
}

/// What is put in and taken out again is gone; the rest is as it was.
proof fn lemma_put_and_taken(entries: Entries, dataset: Seq<char>, pairs: Seq<(Seq<char>, Seq<u8>)>)
    ensures
        without(put_all(entries, dataset, pairs), dataset, pairs) == without(entries, dataset, pairs),
{
    let a = without(put_all(entries, dataset, pairs), dataset, pairs);
    let b = without(entries, dataset, pairs);
    assert forall|key: (Seq<char>, Seq<char>)| #[trigger] a.contains_key(key) == b.contains_key(key) && (
    a.contains_key(key) ==> a[key] == b[key]) by {
        if !(key.0 == dataset && lists(pairs, key.1)) {
            lemma_put_all_elsewhere(entries, dataset, pairs, key);
        }
    }
    assert(a =~= b);
}

/// A block that was indexed is found by its hash, at its height, unless a later
/// block of the list has the same hash.
pub proof fn law_indexed_blocks_are_found(store: StoreView, dataset: Seq<char>, blocks: Seq<BlockRefView>, i: int)
    requires
        0 <= i < blocks.len(),
        forall|j: int| i < j < blocks.len() ==> (#[trigger] blocks[j]).hash != blocks[i].hash,
    ensures
        store.after(tx::blocks_indexed(dataset, blocks)).block_hashes.contains_pair(
            (dataset, blocks[i].hash),
            index::be_bytes_8(blocks[i].number),
        ),
{
    let pairs = block_pairs(blocks);
    lemma_blocks_indexed(store, dataset, blocks);
    assert forall|j: int| i < j < pairs.len() implies (#[trigger] pairs[j]).0 != pairs[i].0 by {
        assert(pairs[j].0 == blocks[j].hash);
    }
    assert(pairs[i].0 == blocks[i].hash);
    lemma_put_all_here(store.block_hashes, dataset, pairs, i);
}

/// A transaction that was indexed is found by its hash, at its place, unless a later
/// one of the list has the same hash.
pub proof fn law_indexed_transactions_are_found(
    store: StoreView,
    dataset: Seq<char>,
    rows: Seq<TransactionRowView>,
    i: int,
)
    requires
        0 <= i < rows.len(),
        forall|j: int| i < j < rows.len() ==> (#[trigger] rows[j]).hash != rows[i].hash,
    ensures
        store.after(tx::transactions_indexed(dataset, rows)).transaction_hashes.contains_pair(
            (dataset, rows[i].hash),
            index::be_bytes_8(rows[i].block_number) + index::be_bytes_4(rows[i].transaction_index),
        ),
{
    let pairs = transaction_pairs(rows);
    lemma_transactions_indexed(store, dataset, rows);
    assert forall|j: int| i < j < pairs.len() implies (#[trigger] pairs[j]).0 != pairs[i].0 by {
        assert(pairs[j].0 == rows[j].hash);
    }
    assert(pairs[i].0 == rows[i].hash);
    lemma_put_all_here(store.transaction_hashes, dataset, pairs, i);
}

/// Unindexing undoes indexing: no entry of the blocks remains, and everything else
/// is as it was before either.
pub proof fn law_unindexing_undoes_indexing_blocks(store: StoreView, dataset: Seq<char>, blocks: Seq<BlockRefView>)
    ensures
        store.after(tx::blocks_indexed(dataset, blocks)).after(tx::blocks_unindexed(dataset, blocks)) == (StoreView {
            block_hashes: without(store.block_hashes, dataset, block_pairs(blocks)),
            ..store
        }),
{
    lemma_blocks_indexed(store, dataset, blocks);
    law_unindexing_removes_the_blocks(store.after(tx::blocks_indexed(dataset, blocks)), dataset, blocks);
    lemma_put_and_taken(store.block_hashes, dataset, block_pairs(blocks));
}

/// Unindexing undoes indexing: no entry of the transactions remains, and everything
/// else is as it was before either.
pub proof fn law_unindexing_undoes_indexing_transactions(
    store: StoreView,
    dataset: Seq<char>,
    rows: Seq<TransactionRowView>,
)
    ensures
        store.after(tx::transactions_indexed(dataset, rows)).after(tx::transactions_unindexed(dataset, rows)) == (
        StoreView {
            transaction_hashes: without(store.transaction_hashes, dataset, transaction_pairs(rows)),
            ..store
        }),
{
    lemma_transactions_indexed(store, dataset, rows);
    law_unindexing_removes_the_transactions(store.after(tx::transactions_indexed(dataset, rows)), dataset, rows);
    lemma_put_and_taken(store.transaction_hashes, dataset, transaction_pairs(rows));
}

/// The changes by which the index entries of a chunk are removed.
pub open spec fn hash_removal(dataset: Seq<char>, chunk: ChunkView, reading: HashReadingView) -> Seq<MutationView> {
    (if reading.has_block_entries && tx::blocks_table(chunk) is Some {
        tx::blocks_unindexed(dataset, reading.blocks)
    } else {
        Seq::empty()
    }) + (if reading.has_transaction_entries && tx::transactions_table(chunk) is Some {
        tx::transactions_unindexed(dataset, reading.transactions)
    } else {
        Seq::empty()
    })
}

/// Removing the index entries of a chunk stages just those changes.
proof fn lemma_hash_removal_staged(tx: TxView, dataset: Seq<char>, chunk: ChunkView, reading: HashReadingView)
    ensures
        tx.hashes_removed(dataset, chunk, reading).staged == tx.staged + hash_removal(dataset, chunk, reading),
{
    assert(tx.hashes_removed(dataset, chunk, reading).staged =~= tx.staged + hash_removal(dataset, chunk, reading));
}

/// Looking first whether an index has any entry of the dataset saves work and
/// changes nothing: where it has none, removing the entries of a chunk would have no
/// effect.
pub proof fn law_the_probe_changes_nothing(
    store: StoreView,
    dataset: Seq<char>,
    chunk: ChunkView,
    reading: HashReadingView,
)
    requires
        reading.has_block_entries == store.has_block_hashes(dataset),
        reading.has_transaction_entries == store.has_transaction_hashes(dataset),
    ensures
        store.after(hash_removal(dataset, chunk, reading)) == store.after(
            hash_removal(
                dataset,
                chunk,
                HashReadingView { has_block_entries: true, has_transaction_entries: true, ..reading },
            ),
        ),
        store.after(hash_removal(dataset, chunk, reading)) == (StoreView {
            block_hashes: if tx::blocks_table(chunk) is Some {
                without(store.block_hashes, dataset, block_pairs(reading.blocks))
            } else {
                store.block_hashes
            },
            transaction_hashes: if tx::transactions_table(chunk) is Some {
                without(store.transaction_hashes, dataset, transaction_pairs(reading.transactions))
            } else {
                store.transaction_hashes
            },
            ..store
        }),
{
    let always = HashReadingView { has_block_entries: true, has_transaction_entries: true, ..reading };
    lemma_hash_removal_effect(store, dataset, chunk, reading);
    lemma_hash_removal_effect(store, dataset, chunk, always);
    if !store.has_block_hashes(dataset) {
        assert(without(store.block_hashes, dataset, block_pairs(reading.blocks)) =~= store.block_hashes) by {
            assert forall|key: (Seq<char>, Seq<char>)| #[trigger] store.block_hashes.contains_key(key) implies key.0
                != dataset by {
                if key.0 == dataset {
                    assert(key == (dataset, key.1));
                    assert(store.block_hashes.contains_key((dataset, key.1)));
                }
            }
        }
    }
    if !store.has_transaction_hashes(dataset) {
        assert(without(store.transaction_hashes, dataset, transaction_pairs(reading.transactions))
            =~= store.transaction_hashes) by {
            assert forall|key: (Seq<char>, Seq<char>)| #[trigger]
                store.transaction_hashes.contains_key(key) implies key.0 != dataset by {
                if key.0 == dataset {
                    assert(key == (dataset, key.1));
                    assert(store.transaction_hashes.contains_key((dataset, key.1)));
                }
            }
        }
    }
}

/// The effect of removing the index entries of a chunk.
proof fn lemma_hash_removal_effect(
    store: StoreView,
    dataset: Seq<char>,
    chunk: ChunkView,
    reading: HashReadingView,
)
    ensures
        store.after(hash_removal(dataset, chunk, reading)) == (StoreView {
            block_hashes: if reading.has_block_entries && tx::blocks_table(chunk) is Some {
                without(store.block_hashes, dataset, block_pairs(reading.blocks))
            } else {
                store.block_hashes
            },
            transaction_hashes: if reading.has_transaction_entries && tx::transactions_table(chunk) is Some {
                without(store.transaction_hashes, dataset, transaction_pairs(reading.transactions))
            } else {
                store.transaction_hashes
            },
            ..store
        }),
{
    let first = if reading.has_block_entries && tx::blocks_table(chunk) is Some {
        tx::blocks_unindexed(dataset, reading.blocks)
    } else {
        Seq::empty()
    };
    let second = if reading.has_transaction_entries && tx::transactions_table(chunk) is Some {
        tx::transactions_unindexed(dataset, reading.transactions)
    } else {
        Seq::empty()
    };
    mutation::lemma_after_concat(store, first, second);
    law_unindexing_removes_the_blocks(store, dataset, reading.blocks);
    law_unindexing_removes_the_transactions(store.after(first), dataset, reading.transactions);
}

/// The tables of a chunk.
pub open spec fn table_ids(tables: Seq<(Seq<char>, TableId)>) -> Set<TableId> {
    Set::new(|t: TableId| exists|i: int| 0 <= i < tables.len() && (#[trigger] tables[i]).1 == t)
}

proof fn lemma_table_ids_last(tables: Seq<(Seq<char>, TableId)>)
    requires
        tables.len() > 0,
    ensures
        table_ids(tables) == table_ids(tables.drop_last()).insert(tables.last().1),
{
    let init = tables.drop_last();
    assert(tables.last() == tables[tables.len() - 1]);
    assert forall|t: TableId| #[trigger] table_ids(tables).contains(t) <==> table_ids(init).insert(
        tables.last().1,
    ).contains(t) by {
        if table_ids(tables).contains(t) && t != tables.last().1 {
            let i = choose|i: int| 0 <= i < tables.len() && (#[trigger] tables[i]).1 == t;
            assert(init[i] == tables[i]);
        }
        if table_ids(init).contains(t) {
            let i = choose|i: int| 0 <= i < init.len() && (#[trigger] init[i]).1 == t;
            assert(tables[i] == init[i]);
        }
    }
    assert(table_ids(tables) =~= table_ids(init).insert(tables.last().1));
}

proof fn lemma_tables_marked(store: StoreView, tables: Seq<(Seq<char>, TableId)>)
    ensures
        store.after(
            tables.map_values(|t: (Seq<char>, TableId)| MutationView::MarkDeletedTable { table: t.1 }),
        ) == (StoreView { deleted_tables: store.deleted_tables.union(table_ids(tables)), ..store }),
    decreases tables.len(),
{
    let marks = tables.map_values(|t: (Seq<char>, TableId)| MutationView::MarkDeletedTable { table: t.1 });
    if tables.len() == 0 {
        assert(store.deleted_tables.union(table_ids(tables)) =~= store.deleted_tables);
    } else {
        let init = tables.drop_last();
        lemma_tables_marked(store, init);
        lemma_table_ids_last(tables);
        assert(marks.drop_last() =~= init.map_values(
            |t: (Seq<char>, TableId)| MutationView::MarkDeletedTable { table: t.1 },
        ));
        assert(store.deleted_tables.union(table_ids(init)).insert(tables.last().1) =~= store.deleted_tables.union(
            table_ids(tables),
        ));
    }
}

proof fn lemma_tables_cleared(store: StoreView, tables: Seq<(Seq<char>, TableId)>)
    ensures
        store.after(
            tables.map_values(|t: (Seq<char>, TableId)| MutationView::ClearDirtyTable { table: t.1 }),
        ) == (StoreView { dirty_tables: store.dirty_tables.difference(table_ids(tables)), ..store }),
    decreases tables.len(),
{
    let clears = tables.map_values(|t: (Seq<char>, TableId)| MutationView::ClearDirtyTable { table: t.1 });
    if tables.len() == 0 {
        assert(store.dirty_tables.difference(table_ids(tables)) =~= store.dirty_tables);
    } else {
        let init = tables.drop_last();
        lemma_tables_cleared(store, init);
        lemma_table_ids_last(tables);
        assert(clears.drop_last() =~= init.map_values(
            |t: (Seq<char>, TableId)| MutationView::ClearDirtyTable { table: t.1 },
        ));
        assert(store.dirty_tables.difference(table_ids(init)).remove(tables.last().1)
            =~= store.dirty_tables.difference(table_ids(tables)));
    }
}

/// Writing a chunk stores it, and none of its tables is dirty any more.
pub proof fn law_a_written_chunk_is_stored(store: StoreView, dataset: Seq<char>, chunk: ChunkView)
    ensures
        store.after(tx::chunk_written(dataset, chunk)) == (StoreView {
            chunks: store.chunks.insert((dataset, chunk.last_block), chunk),
            dirty_tables: store.dirty_tables.difference(table_ids(chunk.tables)),
            ..store
        }),
{
    let put = seq![MutationView::PutChunk { dataset, chunk }];
    let clears = chunk.tables.map_values(|t: (Seq<char>, TableId)| MutationView::ClearDirtyTable { table: t.1 });
    mutation::lemma_after_concat(store, put, clears);
    assert(put.drop_last() =~= Seq::empty());
    reveal_with_fuel(StoreView::after, 2);
    lemma_tables_cleared(store.after(put), chunk.tables);
}

/// Deleting a chunk removes it, and all its tables are marked for cleanup.
pub proof fn law_a_deleted_chunk_is_gone(store: StoreView, dataset: Seq<char>, chunk: ChunkView)
    ensures
        store.after(tx::chunk_removed(dataset, chunk)) == (StoreView {
            chunks: store.chunks.remove((dataset, chunk.last_block)),
            deleted_tables: store.deleted_tables.union(table_ids(chunk.tables)),
            ..store
        }),
{
    let del = seq![MutationView::DeleteChunk { dataset, chunk }];
    let marks = chunk.tables.map_values(|t: (Seq<char>, TableId)| MutationView::MarkDeletedTable { table: t.1 });
    mutation::lemma_after_concat(store, del, marks);
    assert(del.drop_last() =~= Seq::empty());
    reveal_with_fuel(StoreView::after, 2);
    lemma_tables_marked(store.after(del), chunk.tables);
}

/// The changes by which the first `n` heads are removed.
pub open spec fn removals(dataset: Seq<char>, heads: Seq<StoredHeadView>, n: nat) -> Seq<MutationView>
    decreases n,
{
    if n == 0 {
        Seq::empty()
    } else {
        removals(dataset, heads, (n - 1) as nat) + (hash_removal(
            dataset,
            heads[n - 1].chunk,
            heads[n - 1].reading,
        ) + tx::chunk_removed(dataset, heads[n - 1].chunk))
    }
}

proof fn lemma_removals_staged(tx: TxView, dataset: Seq<char>, heads: Seq<StoredHeadView>, n: nat)
    ensures
        tx.heads_removed(dataset, heads, n).staged == tx.staged + removals(dataset, heads, n),
        tx.heads_removed(dataset, heads, n).block_hash_index == tx.block_hash_index,
        tx.heads_removed(dataset, heads, n).transaction_hash_index == tx.transaction_hash_index,
    decreases n,
{
    if n == 0 {
        assert(tx.staged + removals(dataset, heads, n) =~= tx.staged);
    } else {
        let m = (n - 1) as nat;
        lemma_removals_staged(tx, dataset, heads, m);
        let before = tx.heads_removed(dataset, heads, m);
        lemma_hash_removal_staged(before, dataset, heads[n - 1].chunk, heads[n - 1].reading);
        assert(tx.heads_removed(dataset, heads, n).staged =~= tx.staged + removals(dataset, heads, n));
    }
}

/// Whether one of the first `n` heads ends at that height.
pub open spec fn ends_head(heads: Seq<StoredHeadView>, n: nat, height: BlockNumber) -> bool {
    exists|i: int| 0 <= i < n && (#[trigger] heads[i]).chunk.last_block == height
}

/// What the first `n` heads being removed makes of the store.
proof fn lemma_removals_effect(
    store: StoreView,
    dataset: Seq<char>,
    heads: Seq<StoredHeadView>,
    n: nat,
)
    requires
        n <= heads.len(),
    ensures
        ({
            let after = store.after(removals(dataset, heads, n));
            &&& after.labels == store.labels
            &&& after.dirty_tables == store.dirty_tables
            &&& after.chunks == store.chunks.restrict(
                Set::new(|key: (Seq<char>, BlockNumber)| !(key.0 == dataset && ends_head(heads, n, key.1))),
            )
            &&& store.deleted_tables.subset_of(after.deleted_tables)
            &&& forall|i: int|
                0 <= i < n ==> table_ids((#[trigger] heads[i]).chunk.tables).subset_of(after.deleted_tables)
        }),
    decreases n,
{
    let kept = |k: nat| Set::new(|key: (Seq<char>, BlockNumber)| !(key.0 == dataset && ends_head(heads, k, key.1)));
    if n == 0 {
        assert(store.chunks.restrict(kept(0)) =~= store.chunks);
    } else {
        let m = (n - 1) as nat;
        let head = heads[n - 1];
        lemma_removals_effect(store, dataset, heads, m);
        let before = store.after(removals(dataset, heads, m));
        let hashes = hash_removal(dataset, head.chunk, head.reading);
        let gone = tx::chunk_removed(dataset, head.chunk);
        mutation::lemma_after_concat(store, removals(dataset, heads, m), hashes + gone);
        mutation::lemma_after_concat(before, hashes, gone);
        lemma_hash_removal_effect(before, dataset, head.chunk, head.reading);
        law_a_deleted_chunk_is_gone(before.after(hashes), dataset, head.chunk);
        assert forall|height: BlockNumber|
            ends_head(heads, n, height) <==> ends_head(heads, m, height) || head.chunk.last_block == height by {
            if ends_head(heads, n, height) && head.chunk.last_block != height {
                let i = choose|i: int| 0 <= i < n && (#[trigger] heads[i]).chunk.last_block == height;
                assert(i < m);
            }
            if ends_head(heads, m, height) {
                let i = choose|i: int| 0 <= i < m && (#[trigger] heads[i]).chunk.last_block == height;
                assert(0 <= i < n);
            }
            if head.chunk.last_block == height {
                assert(heads[n - 1].chunk.last_block == height);
            }
        }
        let after = store.after(removals(dataset, heads, n));
        assert(after.chunks =~= store.chunks.restrict(kept(n)));
        assert forall|i: int| 0 <= i < n implies table_ids((#[trigger] heads[i]).chunk.tables).subset_of(
            after.deleted_tables,
        ) by {
            if i < m {
                assert(table_ids(heads[i].chunk.tables).subset_of(before.deleted_tables));
            }
        }
    }
}

/// The changes by which the index entries of a chunk are added.
pub open spec fn hash_addition(
    tx: TxView,
    dataset: Seq<char>,
    chunk: ChunkView,
    label: Option<DatasetLabelView>,
    reading: HashReadingView,
) -> Seq<MutationView> {
    (if tx.indexes(label) && tx.block_hash_index && tx::blocks_table(chunk) is Some {
        tx::blocks_indexed(dataset, reading.blocks)
    } else {
        Seq::empty()
    }) + (if tx.indexes(label) && tx.transaction_hash_index && tx::transactions_table(chunk) is Some {
        tx::transactions_indexed(dataset, reading.transactions)
    } else {
        Seq::empty()
    })
}

/// Adding index entries changes the indexes alone, and puts in those of the chunk.
proof fn lemma_hash_addition_effect(
    store: StoreView,
    tx: TxView,
    dataset: Seq<char>,
    chunk: ChunkView,
    label: Option<DatasetLabelView>,
    reading: HashReadingView,
)
    ensures
        ({
            let after = store.after(hash_addition(tx, dataset, chunk, label, reading));
            after == (StoreView {
                block_hashes: if tx.indexes(label) && tx.block_hash_index && tx::blocks_table(chunk) is Some {
                    put_all(store.block_hashes, dataset, block_pairs(reading.blocks))
                } else {
                    store.block_hashes
                },
                transaction_hashes: if tx.indexes(label) && tx.transaction_hash_index && tx::transactions_table(
                    chunk,
                ) is Some {
                    put_all(store.transaction_hashes, dataset, transaction_pairs(reading.transactions))
                } else {
                    store.transaction_hashes
                },
                ..store
            })
        }),
{
    let first = if tx.indexes(label) && tx.block_hash_index && tx::blocks_table(chunk) is Some {
        tx::blocks_indexed(dataset, reading.blocks)
    } else {
        Seq::empty()
    };
    let second = if tx.indexes(label) && tx.transaction_hash_index && tx::transactions_table(chunk) is Some {
        tx::transactions_indexed(dataset, reading.transactions)
    } else {
        Seq::empty()
    };
    mutation::lemma_after_concat(store, first, second);
    lemma_blocks_indexed(store, dataset, reading.blocks);
    lemma_transactions_indexed(store.after(first), dataset, reading.transactions);
}

/// Whether the store holds just those chunks of the dataset.
pub open spec fn holds_chunks(store: StoreView, dataset: Seq<char>, chunks: Seq<ChunkView>) -> bool {
    &&& forall|i: int|
        0 <= i < chunks.len() ==> store.chunks.contains_pair((dataset, (#[trigger] chunks[i]).last_block), chunks[i])
    &&& forall|height: BlockNumber| #[trigger]
        store.chunks.contains_key((dataset, height)) ==> exists|i: int|
            0 <= i < chunks.len() && (#[trigger] chunks[i]).last_block == height
}

/// Whether each chunk begins right above the one before, on top of its last block.
pub open spec fn unbroken(chunks: Seq<ChunkView>) -> bool {
    forall|i: int, j: int|
        0 <= i < chunks.len() && 0 <= j < chunks.len() && j == i + 1 ==> (#[trigger] chunks[j]).first_block == (
        #[trigger] chunks[i]).last_block + 1 && chunks[j].parent_block_hash == chunks[i].last_block_hash
}

/// The first head that stays, from `from` on.
proof fn lemma_first_kept(chunk: ChunkView, heads: Seq<StoredHeadView>, from: nat)
    requires
        from <= heads.len(),
    ensures
        from <= chain::first_kept(chunk, heads, from) <= heads.len(),
        chain::first_kept(chunk, heads, from) < heads.len() ==> chunk.first_block
            > heads[chain::first_kept(chunk, heads, from) as int].chunk.first_block,
    decreases heads.len() - from,
{
    if from < heads.len() && chunk.first_block <= heads[from as int].chunk.first_block {
        lemma_first_kept(chunk, heads, from + 1);
    }
}

/// Putting a chunk on top of a chain of chunks replaces the top of it: what the
/// dataset holds then are the chunks that begin below, in order, and the new one on
/// top. An unbroken chain stays unbroken. The tables of the chunks replaced are
/// marked for cleanup, those of the new one are not dirty, and neither the labels
/// nor the chunks of other datasets change.
pub proof fn law_a_fork_replaces_the_top(
    store: StoreView,
    tx: TxView,
    dataset: Seq<char>,
    stored: Seq<ChunkView>,
    heads: Seq<StoredHeadView>,
    chunk: ChunkView,
    label: Option<DatasetLabelView>,
    reading: HashReadingView,
)
    requires
        laws::ordered(stored),
        holds_chunks(store, dataset, stored),
        heads.len() == stored.len(),
        forall|i: int| 0 <= i < heads.len() ==> (#[trigger] heads[i]).chunk == stored[heads.len() - 1 - i],
        chunk.first_block <= chunk.last_block,
        chain::fork_fault(chunk, heads) is None,
        tx.staged.len() == 0,
    ensures
        ({
            let replaced = chain::first_kept(chunk, heads, 0);
            let now = stored.take(stored.len() - replaced).push(chunk);
            let after = store.after(
                tx.heads_removed(dataset, heads, replaced).chunk_added(dataset, chunk, label, reading).staged,
            );
            &&& replaced <= stored.len()
            &&& holds_chunks(after, dataset, now)
            &&& laws::ordered(now)
            &&& unbroken(stored) ==> unbroken(now)
            &&& after.labels == store.labels
            &&& table_ids(chunk.tables).disjoint(after.dirty_tables)
            &&& forall|i: int|
                0 <= i < replaced ==> table_ids((#[trigger] heads[i]).chunk.tables).subset_of(after.deleted_tables)
            &&& forall|key: (Seq<char>, BlockNumber)|
                key.0 != dataset ==> (#[trigger] after.chunks.contains_key(key) == store.chunks.contains_key(key) && (
                store.chunks.contains_key(key) ==> after.chunks[key] == store.chunks[key]))
        }),
{
    let replaced = chain::first_kept(chunk, heads, 0);
    lemma_first_kept(chunk, heads, 0);
    let n = stored.len() as int;
    let kept = stored.take(n - replaced);
    let now = kept.push(chunk);
    let removed = tx.heads_removed(dataset, heads, replaced);
    let outs = removals(dataset, heads, replaced);
    let written = tx::chunk_written(dataset, chunk);
    let added = hash_addition(removed.staging(written), dataset, chunk, label, reading);
    lemma_removals_staged(tx, dataset, heads, replaced);
    assert(removed.chunk_added(dataset, chunk, label, reading).staged =~= outs + (written + added));
    mutation::lemma_after_concat(store, outs, written + added);
    let bare = store.after(outs);
    mutation::lemma_after_concat(bare, written, added);
    lemma_removals_effect(store, dataset, heads, replaced);
    law_a_written_chunk_is_stored(bare, dataset, chunk);
    lemma_hash_addition_effect(bare.after(written), removed.staging(written), dataset, chunk, label, reading);
    let after = store.after(removed.chunk_added(dataset, chunk, label, reading).staged);
    assert(after.chunks == bare.chunks.insert((dataset, chunk.last_block), chunk));
    assert forall|i: int| 0 <= i < kept.len() implies (#[trigger] kept[i]).last_block < chunk.first_block by {
        let top = heads[replaced as int].chunk;
        assert(top == stored[n - 1 - replaced]);
        assert(top.last_block + 1 == chunk.first_block);
        if i < n - 1 - replaced {
            assert(stored[i].last_block < stored[n - 1 - replaced].first_block);
        }
    }
    assert(laws::ordered(now));
    assert forall|i: int| 0 <= i < kept.len() implies !ends_head(
        heads,
        replaced,
        (#[trigger] kept[i]).last_block,
    ) by {
        if ends_head(heads, replaced, kept[i].last_block) {
            let j = choose|j: int| 0 <= j < replaced && (#[trigger] heads[j]).chunk.last_block == kept[i].last_block;
            assert(heads[j].chunk == stored[n - 1 - j]);
            assert(stored[i].last_block < stored[n - 1 - j].first_block);
        }
    }
    assert(holds_chunks(after, dataset, now)) by {
        assert forall|i: int| 0 <= i < now.len() implies after.chunks.contains_pair(
            (dataset, (#[trigger] now[i]).last_block),
            now[i],
        ) by {
            if i < kept.len() {
                assert(now[i] == kept[i]);
                assert(kept[i] == stored[i]);
                assert(store.chunks.contains_pair((dataset, stored[i].last_block), stored[i]));
            }
        }
        assert forall|height: BlockNumber| #[trigger]
            after.chunks.contains_key((dataset, height)) implies exists|i: int|
            0 <= i < now.len() && (#[trigger] now[i]).last_block == height by {
            if height == chunk.last_block {
                assert(now[now.len() - 1].last_block == height);
            } else {
                assert(bare.chunks.contains_key((dataset, height)));
                assert(store.chunks.contains_key((dataset, height)));
                let i = choose|i: int| 0 <= i < stored.len() && (#[trigger] stored[i]).last_block == height;
                if i >= kept.len() {
                    assert(heads[n - 1 - i].chunk == stored[i]);
                    assert(ends_head(heads, replaced, height));
                }
                assert(now[i].last_block == height);
            }
        }
    }
    if unbroken(stored) {
        assert forall|i: int, j: int| 0 <= i < now.len() && 0 <= j < now.len() && j == i + 1 implies (
        #[trigger] now[j]).first_block == (#[trigger] now[i]).last_block + 1 && now[j].parent_block_hash
            == now[i].last_block_hash by {
            if j < kept.len() {
                assert(now[i] == stored[i] && now[j] == stored[j]);
            } else {
                assert(now[i] == stored[n - 1 - replaced]);
                assert(heads[replaced as int].chunk == stored[n - 1 - replaced]);
            }
        }
    }
    assert forall|key: (Seq<char>, BlockNumber)| key.0 != dataset implies (#[trigger] after.chunks.contains_key(key)
        == store.chunks.contains_key(key) && (store.chunks.contains_key(key) ==> after.chunks[key]
        == store.chunks[key])) by {
        assert(bare.chunks.contains_key(key) == store.chunks.contains_key(key));
    }
}

/// The hashes of a list.
pub open spec fn hash_set(pairs: Seq<(Seq<char>, Seq<u8>)>) -> Set<Seq<char>> {
    Set::new(|hash: Seq<char>| lists(pairs, hash))
}

/// The index without some hashes of a dataset.
pub open spec fn dropped(entries: Entries, dataset: Seq<char>, hashes: Set<Seq<char>>) -> Entries {
    entries.restrict(Set::new(|key: (Seq<char>, Seq<char>)| !(key.0 == dataset && hashes.contains(key.1))))
}

/// The hashes that the first `n` heads list as those of their blocks.
pub open spec fn block_hashes_of(heads: Seq<StoredHeadView>, n: nat) -> Set<Seq<char>>
    decreases n,
{
    if n == 0 {
        Set::empty()
    } else {
        block_hashes_of(heads, (n - 1) as nat).union(hash_set(block_pairs(heads[n - 1].reading.blocks)))
    }
}

/// The hashes that the first `n` heads list as those of their transactions.
pub open spec fn transaction_hashes_of(heads: Seq<StoredHeadView>, n: nat) -> Set<Seq<char>>
    decreases n,
{
    if n == 0 {
        Set::empty()
    } else {
        transaction_hashes_of(heads, (n - 1) as nat).union(hash_set(transaction_pairs(heads[n - 1].reading.transactions)))
    }
}

/// Whether what was read of a head is enough to remove its index entries: it says of
/// each index that has an entry of the dataset that it has one, and a table that is
/// missing lists nothing.
pub open spec fn covers(store: StoreView, dataset: Seq<char>, head: StoredHeadView) -> bool {
    &&& store.has_block_hashes(dataset) ==> head.reading.has_block_entries
    &&& store.has_transaction_hashes(dataset) ==> head.reading.has_transaction_entries
    &&& tx::blocks_table(head.chunk) is None ==> head.reading.blocks.len() == 0
    &&& tx::transactions_table(head.chunk) is None ==> head.reading.transactions.len() == 0
}

/// Taking out the hashes of a list, where none of them is there.
proof fn lemma_nothing_to_drop(entries: Entries, dataset: Seq<char>, pairs: Seq<(Seq<char>, Seq<u8>)>)
    requires
        pairs.len() == 0 || forall|hash: Seq<char>| !entries.contains_key((dataset, hash)),
    ensures
        without(entries, dataset, pairs) == entries,
{
    assert forall|key: (Seq<char>, Seq<char>)| #[trigger] entries.contains_key(key) implies !(key.0 == dataset
        && lists(pairs, key.1)) by {
        if key.0 == dataset {
            assert(key == (dataset, key.1));
        }
    }
    assert(without(entries, dataset, pairs) =~= entries);
}

/// Taking out some hashes, and then those of a list.
proof fn lemma_drop_more(
    entries: Entries,
    dataset: Seq<char>,
    hashes: Set<Seq<char>>,
    pairs: Seq<(Seq<char>, Seq<u8>)>,
)
    ensures
        without(dropped(entries, dataset, hashes), dataset, pairs) == dropped(
            entries,
            dataset,
            hashes.union(hash_set(pairs)),
        ),
{
    assert(without(dropped(entries, dataset, hashes), dataset, pairs) =~= dropped(
        entries,
        dataset,
        hashes.union(hash_set(pairs)),
    ));
}

/// The hashes of a head are dropped from an index, looked at or not: where it is not
/// looked at, none of them is there.
proof fn lemma_head_dropped(
    entries: Entries,
    dataset: Seq<char>,
    hashes: Set<Seq<char>>,
    pairs: Seq<(Seq<char>, Seq<u8>)>,
    looked_at: bool,
)
    requires
        looked_at || pairs.len() == 0 || forall|hash: Seq<char>|
            !dropped(entries, dataset, hashes).contains_key((dataset, hash)),
    ensures
        (if looked_at {
            without(dropped(entries, dataset, hashes), dataset, pairs)
        } else {
            dropped(entries, dataset, hashes)
        }) == dropped(entries, dataset, hashes.union(hash_set(pairs))),
{
    if !looked_at {
        lemma_nothing_to_drop(dropped(entries, dataset, hashes), dataset, pairs);
    }
    lemma_drop_more(entries, dataset, hashes, pairs);
}

/// Removing the first `n` heads drops their hashes from the indexes.
proof fn lemma_hashes_dropped(store: StoreView, dataset: Seq<char>, heads: Seq<StoredHeadView>, n: nat)
    requires
        n <= heads.len(),
        forall|i: int|
            0 <= i < n ==> covers(
                store.after(removals(dataset, heads, i as nat)),
                dataset,
                #[trigger] heads[i],
            ),
    ensures
        ({
            let after = store.after(removals(dataset, heads, n));
            &&& after.block_hashes == dropped(store.block_hashes, dataset, block_hashes_of(heads, n))
            &&& after.transaction_hashes == dropped(
                store.transaction_hashes,
                dataset,
                transaction_hashes_of(heads, n),
            )
        }),
    decreases n,
{
    if n == 0 {
        assert(dropped(store.block_hashes, dataset, Set::empty()) =~= store.block_hashes);
        assert(dropped(store.transaction_hashes, dataset, Set::empty()) =~= store.transaction_hashes);
    } else {
        let m = (n - 1) as nat;
        let head = heads[n - 1];
        lemma_hashes_dropped(store, dataset, heads, m);
        let before = store.after(removals(dataset, heads, m));
        let hashes = hash_removal(dataset, head.chunk, head.reading);
        let gone = tx::chunk_removed(dataset, head.chunk);
        mutation::lemma_after_concat(store, removals(dataset, heads, m), hashes + gone);
        mutation::lemma_after_concat(before, hashes, gone);
        lemma_hash_removal_effect(before, dataset, head.chunk, head.reading);
        law_a_deleted_chunk_is_gone(before.after(hashes), dataset, head.chunk);
        assert(covers(before, dataset, head));
        assert forall|hash: Seq<char>| #[trigger]
            before.block_hashes.contains_key((dataset, hash)) implies head.reading.has_block_entries by {
            assert(before.has_block_hashes(dataset));
        }
        assert forall|hash: Seq<char>| #[trigger]
            before.transaction_hashes.contains_key((dataset, hash)) implies head.reading.has_transaction_entries by {
            assert(before.has_transaction_hashes(dataset));
        }
        lemma_head_dropped(
            store.block_hashes,
            dataset,
            block_hashes_of(heads, m),
            block_pairs(head.reading.blocks),
            head.reading.has_block_entries && tx::blocks_table(head.chunk) is Some,
        );
        lemma_head_dropped(
            store.transaction_hashes,
            dataset,
            transaction_hashes_of(heads, m),
            transaction_pairs(head.reading.transactions),
            head.reading.has_transaction_entries && tx::transactions_table(head.chunk) is Some,
        );
    }
}

/// Adding a chunk stages what writes it, and then what indexes it.
proof fn lemma_addition_staged(
    tx: TxView,
    dataset: Seq<char>,
    chunk: ChunkView,
    label: Option<DatasetLabelView>,
    reading: HashReadingView,
)
    ensures
        tx.chunk_added(dataset, chunk, label, reading).staged == tx.staged + (tx::chunk_written(dataset, chunk)
            + hash_addition(tx.staging(tx::chunk_written(dataset, chunk)), dataset, chunk, label, reading)),
{
    let written = tx::chunk_written(dataset, chunk);
    assert(tx.chunk_added(dataset, chunk, label, reading).staged =~= tx.staged + (written + hash_addition(
        tx.staging(written),
        dataset,
        chunk,
        label,
        reading,
    )));
}

/// What putting a chunk on top makes of the indexes.
proof fn lemma_indexes_after_fork(
    store: StoreView,
    tx: TxView,
    dataset: Seq<char>,
    heads: Seq<StoredHeadView>,
    replaced: nat,
    chunk: ChunkView,
    label: Option<DatasetLabelView>,
    reading: HashReadingView,
)
    requires
        tx.staged.len() == 0,
        replaced <= heads.len(),
        forall|i: int|
            0 <= i < replaced ==> covers(
                store.after(removals(dataset, heads, i as nat)),
                dataset,
                #[trigger] heads[i],
            ),
    ensures
        ({
            let after = store.after(
                tx.heads_removed(dataset, heads, replaced).chunk_added(dataset, chunk, label, reading).staged,
            );
            let blocks = dropped(store.block_hashes, dataset, block_hashes_of(heads, replaced));
            let transactions = dropped(store.transaction_hashes, dataset, transaction_hashes_of(heads, replaced));
            &&& after.block_hashes == if tx.indexes(label) && tx.block_hash_index && tx::blocks_table(chunk) is Some {
                put_all(blocks, dataset, block_pairs(reading.blocks))
            } else {
                blocks
            }
            &&& after.transaction_hashes == if tx.indexes(label) && tx.transaction_hash_index && tx::transactions_table(
                chunk,
            ) is Some {
                put_all(transactions, dataset, transaction_pairs(reading.transactions))
            } else {
                transactions
            }
        }),
{
    let removed = tx.heads_removed(dataset, heads, replaced);
    let outs = removals(dataset, heads, replaced);
    let written = tx::chunk_written(dataset, chunk);
    let staging = removed.staging(written);
    let added = hash_addition(staging, dataset, chunk, label, reading);
    lemma_removals_staged(tx, dataset, heads, replaced);
    lemma_addition_staged(removed, dataset, chunk, label, reading);
    assert(tx.staged + outs =~= outs);
    mutation::lemma_after_concat(store, outs, written + added);
    let bare = store.after(outs);
    mutation::lemma_after_concat(bare, written, added);
    lemma_hashes_dropped(store, dataset, heads, replaced);
    law_a_written_chunk_is_stored(bare, dataset, chunk);
    lemma_hash_addition_effect(bare.after(written), staging, dataset, chunk, label, reading);
}

/// Putting a chunk on top of a chain of chunks takes the hashes of all chunks that it
/// replaces out of the indexes, and puts its own in, as far as they are kept. So no
/// hash of a replaced chunk is found any more, unless the new chunk lists it too; and
/// nothing else in the indexes changes.
pub proof fn law_a_fork_leaves_no_stale_hash(
    store: StoreView,
    tx: TxView,
    dataset: Seq<char>,
    heads: Seq<StoredHeadView>,
    chunk: ChunkView,
    label: Option<DatasetLabelView>,
    reading: HashReadingView,
)
    requires
        tx.staged.len() == 0,
        forall|i: int|
            0 <= i < chain::first_kept(chunk, heads, 0) ==> covers(
                store.after(removals(dataset, heads, i as nat)),
                dataset,
                #[trigger] heads[i],
            ),
    ensures
        ({
            let replaced = chain::first_kept(chunk, heads, 0);
            let after = store.after(
                tx.heads_removed(dataset, heads, replaced).chunk_added(dataset, chunk, label, reading).staged,
            );
            let blocks = dropped(store.block_hashes, dataset, block_hashes_of(heads, replaced));
            let transactions = dropped(store.transaction_hashes, dataset, transaction_hashes_of(heads, replaced));
            &&& after.block_hashes == if tx.indexes(label) && tx.block_hash_index && tx::blocks_table(chunk) is Some {
                put_all(blocks, dataset, block_pairs(reading.blocks))
            } else {
                blocks
            }
            &&& after.transaction_hashes == if tx.indexes(label) && tx.transaction_hash_index && tx::transactions_table(
                chunk,
            ) is Some {
                put_all(transactions, dataset, transaction_pairs(reading.transactions))
            } else {
                transactions
            }
            &&& forall|hash: Seq<char>|
                block_hashes_of(heads, replaced).contains(hash) && after.block_hashes.contains_key((dataset, hash))
                    ==> #[trigger] lists(block_pairs(reading.blocks), hash)
            &&& forall|hash: Seq<char>|
                transaction_hashes_of(heads, replaced).contains(hash) && after.transaction_hashes.contains_key(
                    (dataset, hash),
                ) ==> #[trigger] lists(transaction_pairs(reading.transactions), hash)
        }),
{
    let replaced = chain::first_kept(chunk, heads, 0);
    lemma_first_kept(chunk, heads, 0);
    lemma_indexes_after_fork(store, tx, dataset, heads, replaced, chunk, label, reading);
    let after = store.after(
        tx.heads_removed(dataset, heads, replaced).chunk_added(dataset, chunk, label, reading).staged,
    );
    let blocks = dropped(store.block_hashes, dataset, block_hashes_of(heads, replaced));
    let transactions = dropped(store.transaction_hashes, dataset, transaction_hashes_of(heads, replaced));
    assert forall|hash: Seq<char>|
        block_hashes_of(heads, replaced).contains(hash) && after.block_hashes.contains_key(
            (dataset, hash),
        ) implies #[trigger] lists(block_pairs(reading.blocks), hash) by {
        if !lists(block_pairs(reading.blocks), hash) {
            lemma_put_all_elsewhere(blocks, dataset, block_pairs(reading.blocks), (dataset, hash));
        }
    }
    assert forall|hash: Seq<char>|
        transaction_hashes_of(heads, replaced).contains(hash) && after.transaction_hashes.contains_key(
            (dataset, hash),
        ) implies #[trigger] lists(transaction_pairs(reading.transactions), hash) by {
        if !lists(transaction_pairs(reading.transactions), hash) {
            lemma_put_all_elsewhere(
                transactions,
                dataset,
                transaction_pairs(reading.transactions),
                (dataset, hash),
            );
        }
    }
}

} // verus!
