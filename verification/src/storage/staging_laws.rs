//! What a transaction stages, change by change, and what it takes down of the work on
//! the indexes.
use crate::storage::chain::{self, StoredHead, StoredHeadView};
use crate::storage::finality::{self, StoredBlocks};
use crate::storage::index::{self, HashIndex, HashIndexWriteView, IndexWork};
use crate::storage::mutation::{self, Mutation, MutationView};
use crate::storage::tx::{
    self, HashReading, HashReadingView, TransactionRow, TransactionRowView, TxError, TxErrorView, TxView,
};
use crate::types::{BlockRefView, ChunkView, DatasetLabelView};
use vstd::prelude::*;

verus! {

/// Eight bytes that stand for a height: together, the first one counting most, they
/// are the height again.
pub proof fn law_a_height_is_written_in_eight_bytes(n: u64)
    ensures
        ({
            let b = index::be_bytes_8(n);
            &&& b.len() == 8
            &&& n == 0x100_0000_0000_0000 * b[0] + 0x1_0000_0000_0000 * b[1] + 0x100_0000_0000 * b[2] + 0x1_0000_0000
                * b[3] + 0x100_0000 * b[4] + 0x1_0000 * b[5] + 0x100 * b[6] + b[7]
        }),
{
    let b = index::be_bytes_8(n);
    let m = n as nat;
    lemma_byte(m, 0x100_0000_0000_0000);
    lemma_byte(m, 0x1_0000_0000_0000);
    lemma_byte(m, 0x100_0000_0000);
    lemma_byte(m, 0x1_0000_0000);
    lemma_byte(m, 0x100_0000);
    lemma_byte(m, 0x1_0000);
    lemma_byte(m, 0x100);
    lemma_byte(m, 1);
    assert(m / 0x1_0000_0000_0000_0000 == 0);
}

/// Four bytes that stand for a position: together, the first one counting most, they
/// are the position again.
pub proof fn law_a_position_is_written_in_four_bytes(n: u32)
    ensures
        ({
            let b = index::be_bytes_4(n);
            &&& b.len() == 4
            &&& n == 0x100_0000 * b[0] + 0x1_0000 * b[1] + 0x100 * b[2] + b[3]
        }),
{
    let m = n as nat;
    lemma_byte(m, 0x100_0000);
    lemma_byte(m, 0x1_0000);
    lemma_byte(m, 0x100);
    lemma_byte(m, 1);
    assert(m / 0x1_0000_0000 == 0);
}

proof fn lemma_byte(n: nat, weight: nat)
    requires
        weight > 0,
    ensures
        n / weight == 256 * (n / (256 * weight)) + index::byte_of(n, weight),
{
    let q = n / weight;
    vstd::arithmetic::div_mod::lemma_div_denominator(n as int, weight as int, 256);
    assert(weight * 256 == 256 * weight);
    assert(q == 256 * (q / 256) + q % 256);
}

/// Writing a chunk stages the chunk under its dataset, and after it for each of its
/// tables, in order, that it is no longer dirty.
pub proof fn law_what_writing_a_chunk_stages(dataset: Seq<char>, chunk: ChunkView, i: int)
    requires
        0 <= i < chunk.tables.len(),
    ensures
        tx::chunk_written(dataset, chunk).len() == 1 + chunk.tables.len(),
        tx::chunk_written(dataset, chunk)[0] == (MutationView::PutChunk { dataset, chunk }),
        tx::chunk_written(dataset, chunk)[1 + i] == (MutationView::ClearDirtyTable { table: chunk.tables[i].1 }),
{
}

/// Removing a chunk stages the removal of the chunk of that dataset, and after it for
/// each of its tables, in order, that it is to be cleaned up.
pub proof fn law_what_removing_a_chunk_stages(dataset: Seq<char>, chunk: ChunkView, i: int)
    requires
        0 <= i < chunk.tables.len(),
    ensures
        tx::chunk_removed(dataset, chunk).len() == 1 + chunk.tables.len(),
        tx::chunk_removed(dataset, chunk)[0] == (MutationView::DeleteChunk { dataset, chunk }),
        tx::chunk_removed(dataset, chunk)[1 + i] == (MutationView::MarkDeletedTable { table: chunk.tables[i].1 }),
{
}

/// A chunk without tables is a change of its own.
pub proof fn law_a_chunk_without_tables(dataset: Seq<char>, chunk: ChunkView)
    requires
        chunk.tables.len() == 0,
    ensures
        tx::chunk_written(dataset, chunk) == seq![MutationView::PutChunk { dataset, chunk }],
        tx::chunk_removed(dataset, chunk) == seq![MutationView::DeleteChunk { dataset, chunk }],
{
    assert(tx::chunk_written(dataset, chunk) =~= seq![MutationView::PutChunk { dataset, chunk }]);
    assert(tx::chunk_removed(dataset, chunk) =~= seq![MutationView::DeleteChunk { dataset, chunk }]);
}

/// Each block of a list is indexed, and unindexed, by its own hash, one after the
/// other; what is stored for it are the eight bytes of its height.
pub proof fn law_blocks_are_indexed_one_by_one(dataset: Seq<char>, blocks: Seq<BlockRefView>, i: int)
    ensures
        tx::blocks_indexed(dataset, blocks).len() == blocks.len(),
        tx::blocks_unindexed(dataset, blocks).len() == blocks.len(),
        0 <= i < blocks.len() ==> tx::blocks_indexed(dataset, blocks)[i] == (MutationView::PutBlockHash {
            dataset,
            hash: blocks[i].hash,
            height: index::be_bytes_8(blocks[i].number),
        }),
        0 <= i < blocks.len() ==> tx::blocks_unindexed(dataset, blocks)[i] == (MutationView::DeleteBlockHash {
            dataset,
            hash: blocks[i].hash,
        }),
{
}

/// Each transaction of a list is indexed, and unindexed, by its own hash, one after
/// the other; what is stored for it are the eight bytes of the height of its block,
/// and then the four of its position.
pub proof fn law_transactions_are_indexed_one_by_one(dataset: Seq<char>, rows: Seq<TransactionRowView>, i: int)
    ensures
        tx::transactions_indexed(dataset, rows).len() == rows.len(),
        tx::transactions_unindexed(dataset, rows).len() == rows.len(),
        0 <= i < rows.len() ==> tx::transactions_indexed(dataset, rows)[i] == (MutationView::PutTransactionHash {
            dataset,
            hash: rows[i].hash,
            place: index::be_bytes_8(rows[i].block_number) + index::be_bytes_4(rows[i].transaction_index),
        }),
        0 <= i < rows.len() ==> tx::transactions_unindexed(dataset, rows)[i] == (MutationView::DeleteTransactionHash {
            dataset,
            hash: rows[i].hash,
        }),
{
}

/// Whether a chunk has a table of that name.
pub open spec fn has_table(chunk: ChunkView, name: Seq<char>) -> bool {
    exists|i: int| 0 <= i < chunk.tables.len() && (#[trigger] chunk.tables[i]).0 == name
}

/// Whether `after` is `before` and one scan more that took that many nanoseconds; the
/// time stops at the longest span, the number of scans at the largest of 64 bits.
pub open spec fn one_scan_more(before: IndexWork, after: IndexWork, nanos: nat) -> bool {
    &&& after.operations == before.operations + 1 || after.operations == u64::MAX && before.operations == u64::MAX
    &&& after.nanos == before.nanos + nanos || after.nanos == 18_446_744_073_709_551_615_999_999_999
        && before.nanos + nanos > 18_446_744_073_709_551_615_999_999_999
}

/// The index entries of a chunk are added exactly for a dataset of the kind `evm`, and
/// only to an index that is switched on: first those of its blocks, if it has a table
/// of blocks, then those of its transactions, if it has a table of these. Each index
/// that is looked at counts as one scan, whether or not the table is there. What was
/// staged before stays in front.
pub proof fn law_what_indexing_a_chunk_stages(
    tx: TxView,
    dataset: Seq<char>,
    chunk: ChunkView,
    label: Option<DatasetLabelView>,
    reading: HashReadingView,
)
    ensures
        ({
            let next = tx.hashes_added(dataset, chunk, label, reading);
            let indexed = label is Some && label.unwrap().kind == "evm"@;
            let with_blocks = indexed && tx.block_hash_index;
            let with_transactions = indexed && tx.transaction_hash_index;
            &&& next.staged == tx.staged + (if with_blocks && has_table(chunk, "blocks"@) {
                tx::blocks_indexed(dataset, reading.blocks)
            } else {
                Seq::empty()
            }) + (if with_transactions && has_table(chunk, "transactions"@) {
                tx::transactions_indexed(dataset, reading.transactions)
            } else {
                Seq::empty()
            })
            &&& with_blocks ==> one_scan_more(tx.metrics.block, next.metrics.block, reading.block_time)
            &&& !with_blocks ==> next.metrics.block == tx.metrics.block
            &&& with_transactions ==> one_scan_more(
                tx.metrics.transaction,
                next.metrics.transaction,
                reading.transaction_time,
            )
            &&& !with_transactions ==> next.metrics.transaction == tx.metrics.transaction
            &&& next.block_hash_index == tx.block_hash_index
            &&& next.transaction_hash_index == tx.transaction_hash_index
            &&& next.retry_policy == tx.retry_policy
        }),
{
    let next = tx.hashes_added(dataset, chunk, label, reading);
    let indexed = label is Some && label.unwrap().kind == "evm"@;
    assert(next.staged =~= tx.staged + (if indexed && tx.block_hash_index && has_table(chunk, "blocks"@) {
        tx::blocks_indexed(dataset, reading.blocks)
    } else {
        Seq::empty()
    }) + (if indexed && tx.transaction_hash_index && has_table(chunk, "transactions"@) {
        tx::transactions_indexed(dataset, reading.transactions)
    } else {
        Seq::empty()
    }));
}

/// The index entries of a chunk are removed whatever is switched on and whatever the
/// dataset is: those of its blocks, if the index has any of the dataset and the chunk
/// has a table of blocks, then likewise those of its transactions. Each index counts
/// as one scan. What was staged before stays in front.
pub proof fn law_what_unindexing_a_chunk_stages(
    tx: TxView,
    dataset: Seq<char>,
    chunk: ChunkView,
    reading: HashReadingView,
)
    ensures
        ({
            let next = tx.hashes_removed(dataset, chunk, reading);
            &&& next.staged == tx.staged + (if reading.has_block_entries && has_table(chunk, "blocks"@) {
                tx::blocks_unindexed(dataset, reading.blocks)
            } else {
                Seq::empty()
            }) + (if reading.has_transaction_entries && has_table(chunk, "transactions"@) {
                tx::transactions_unindexed(dataset, reading.transactions)
            } else {
                Seq::empty()
            })
            &&& one_scan_more(tx.metrics.block, next.metrics.block, reading.block_time)
            &&& one_scan_more(tx.metrics.transaction, next.metrics.transaction, reading.transaction_time)
            &&& next.block_hash_index == tx.block_hash_index
            &&& next.transaction_hash_index == tx.transaction_hash_index
            &&& next.retry_policy == tx.retry_policy
        }),
{
    let next = tx.hashes_removed(dataset, chunk, reading);
    assert(next.staged =~= tx.staged + (if reading.has_block_entries && has_table(chunk, "blocks"@) {
        tx::blocks_unindexed(dataset, reading.blocks)
    } else {
        Seq::empty()
    }) + (if reading.has_transaction_entries && has_table(chunk, "transactions"@) {
        tx::transactions_unindexed(dataset, reading.transactions)
    } else {
        Seq::empty()
    }));
}

/// The entries of one index, for themselves: they are staged exactly if the chunk has
/// the table they come from and, to be removed, if the index has any of the dataset.
/// Neither counts as a scan by itself.
pub proof fn law_one_index_at_a_time(
    tx: TxView,
    dataset: Seq<char>,
    chunk: ChunkView,
    reading: HashReadingView,
)
    ensures
        tx.block_hashes_added(dataset, chunk, reading.blocks) == if has_table(chunk, "blocks"@) {
            TxView { staged: tx.staged + tx::blocks_indexed(dataset, reading.blocks), ..tx }
        } else {
            tx
        },
        tx.transaction_hashes_added(dataset, chunk, reading.transactions) == if has_table(chunk, "transactions"@) {
            TxView { staged: tx.staged + tx::transactions_indexed(dataset, reading.transactions), ..tx }
        } else {
            tx
        },
        tx.block_hashes_removed(dataset, chunk, reading) == if reading.has_block_entries && has_table(
            chunk,
            "blocks"@,
        ) {
            TxView { staged: tx.staged + tx::blocks_unindexed(dataset, reading.blocks), ..tx }
        } else {
            tx
        },
        tx.transaction_hashes_removed(dataset, chunk, reading) == if reading.has_transaction_entries && has_table(
            chunk,
            "transactions"@,
        ) {
            TxView { staged: tx.staged + tx::transactions_unindexed(dataset, reading.transactions), ..tx }
        } else {
            tx
        },
{
}

/// Whether indexes are kept at all: one of them is switched on, and the dataset exists
/// and is of the kind `evm`. No other kind is indexed.
pub proof fn law_only_evm_datasets_are_indexed(tx: TxView, label: Option<DatasetLabelView>, kind: Seq<char>)
    ensures
        tx.indexes(label) <==> (tx.block_hash_index || tx.transaction_hash_index) && label is Some
            && label.unwrap().kind == "evm"@,
        index::indexed_kind(kind) <==> kind == "evm"@,
{
}

/// Removing a chunk from the top of a chain removes its index entries first and then
/// the chunk; removing more of them goes on in that way, newest first.
pub proof fn law_heads_are_removed_one_by_one(tx: TxView, dataset: Seq<char>, heads: Seq<StoredHeadView>, n: nat)
    requires
        n < heads.len(),
    ensures
        tx.heads_removed(dataset, heads, 0) == tx,
        ({
            let before = tx.heads_removed(dataset, heads, n);
            let next = tx.heads_removed(dataset, heads, n + 1);
            let unindexed = before.hashes_removed(dataset, heads[n as int].chunk, heads[n as int].reading);
            &&& next.staged == unindexed.staged + tx::chunk_removed(dataset, heads[n as int].chunk)
            &&& next.metrics == unindexed.metrics
            &&& next.block_hash_index == tx.block_hash_index
            &&& next.transaction_hash_index == tx.transaction_hash_index
            &&& next.retry_policy == tx.retry_policy
        }),
    decreases n,
{
    if n > 0 {
        law_heads_are_removed_one_by_one(tx, dataset, heads, (n - 1) as nat);
    }
}

/// A chunk that is added is written before its index entries are added.
pub proof fn law_a_chunk_is_written_before_it_is_indexed(
    tx: TxView,
    dataset: Seq<char>,
    chunk: ChunkView,
    label: Option<DatasetLabelView>,
    reading: HashReadingView,
)
    ensures
        tx.chunk_added(dataset, chunk, label, reading) == (TxView {
            staged: tx.staged + tx::chunk_written(dataset, chunk),
            ..tx
        }).hashes_added(dataset, chunk, label, reading),
        tx.staging(tx::chunk_written(dataset, chunk)) == (TxView {
            staged: tx.staged + tx::chunk_written(dataset, chunk),
            ..tx
        }),
{
}

/// A scan is taken down for its own index alone, as one more and with its time; work
/// of two kinds is added up index by index; and the time is told of an index exactly
/// if it was scanned.
pub proof fn law_work_is_added_up_index_by_index(a: HashIndexWriteView, b: HashIndexWriteView, nanos: nat)
    ensures
        one_scan_more(a.block, a.recorded(HashIndex::Block, nanos).block, nanos),
        a.recorded(HashIndex::Block, nanos).transaction == a.transaction,
        one_scan_more(a.transaction, a.recorded(HashIndex::Transaction, nanos).transaction, nanos),
        a.recorded(HashIndex::Transaction, nanos).block == a.block,
        both_added(a.block, b.block, a.merged(b).block),
        both_added(a.transaction, b.transaction, a.merged(b).transaction),
        a.block.time() == if a.block.operations == 0 {
            None
        } else {
            Some(a.block.nanos)
        },
        HashIndexWriteView::none() == (HashIndexWriteView {
            block: IndexWork { nanos: 0, operations: 0 },
            transaction: IndexWork { nanos: 0, operations: 0 },
        }),
{
}

/// Whether `sum` is the work of both, up to the longest span and the largest number of
/// 64 bits.
pub open spec fn both_added(a: IndexWork, b: IndexWork, sum: IndexWork) -> bool {
    &&& sum.operations == a.operations + b.operations || sum.operations == u64::MAX && a.operations + b.operations
        > u64::MAX
    &&& sum.nanos == a.nanos + b.nanos || sum.nanos == 18_446_744_073_709_551_615_999_999_999 && a.nanos + b.nanos
        > 18_446_744_073_709_551_615_999_999_999
}

/// What a change says is what it was made of.
pub proof fn law_changes_are_told_one_by_one(changes: Seq<Mutation>, i: int)
    requires
        0 <= i < changes.len(),
    ensures
        mutation::mutation_views(changes).len() == changes.len(),
        mutation::mutation_views(changes)[i] == match changes[i] {
            Mutation::PutLabel { dataset, label } => MutationView::PutLabel { dataset: dataset@, label: label@ },
            Mutation::DeleteLabel { dataset } => MutationView::DeleteLabel { dataset: dataset@ },
            Mutation::PutChunk { dataset, chunk } => MutationView::PutChunk { dataset: dataset@, chunk: chunk@ },
            Mutation::DeleteChunk { dataset, chunk } => MutationView::DeleteChunk {
                dataset: dataset@,
                chunk: chunk@,
            },
            Mutation::ClearDirtyTable { table } => MutationView::ClearDirtyTable { table },
            Mutation::MarkDeletedTable { table } => MutationView::MarkDeletedTable { table },
            Mutation::PutBlockHash { dataset, hash, height } => MutationView::PutBlockHash {
                dataset: dataset@,
                hash: hash@,
                height: height@,
            },
            Mutation::DeleteBlockHash { dataset, hash } => MutationView::DeleteBlockHash {
                dataset: dataset@,
                hash: hash@,
            },
            Mutation::PutTransactionHash { dataset, hash, place } => MutationView::PutTransactionHash {
                dataset: dataset@,
                hash: hash@,
                place: place@,
            },
            Mutation::DeleteTransactionHash { dataset, hash } => MutationView::DeleteTransactionHash {
                dataset: dataset@,
                hash: hash@,
            },
        },
{
}

/// What was read of the store is told item by item.
pub proof fn law_readings_are_told_one_by_one(
    reading: HashReading,
    rows: Seq<TransactionRow>,
    heads: Seq<StoredHead>,
    stored: Seq<StoredBlocks>,
    i: int,
)
    ensures
        reading@.has_block_entries == reading.has_block_entries,
        reading@.blocks.len() == reading.blocks@.len(),
        0 <= i < reading.blocks@.len() ==> reading@.blocks[i] == (BlockRefView {
            number: reading.blocks@[i].number,
            hash: reading.blocks@[i].hash@,
        }),
        reading@.block_time == reading.block_time@,
        reading@.has_transaction_entries == reading.has_transaction_entries,
        reading@.transactions == tx::transaction_rows(reading.transactions@),
        reading@.transaction_time == reading.transaction_time@,
        tx::transaction_rows(rows).len() == rows.len(),
        0 <= i < rows.len() ==> tx::transaction_rows(rows)[i] == (TransactionRowView {
            block_number: rows[i].block_number,
            transaction_index: rows[i].transaction_index,
            hash: rows[i].hash@,
        }),
        chain::head_views(heads).len() == heads.len(),
        0 <= i < heads.len() ==> chain::head_views(heads)[i] == (StoredHeadView {
            chunk: heads[i].chunk@,
            reading: heads[i].reading@,
        }),
        finality::stored_views(stored).len() == stored.len(),
        0 <= i < stored.len() ==> finality::stored_views(stored)[i].chunk == stored[i].chunk@
            && finality::stored_views(stored)[i].blocks.len() == stored[i].blocks@.len() && forall|k: int|
            0 <= k < stored[i].blocks@.len() ==> #[trigger] finality::stored_views(stored)[i].blocks[k] == (
            BlockRefView { number: stored[i].blocks@[k].number, hash: stored[i].blocks@[k].hash@ }),
{
}

/// What an error says is what it was made of.
pub proof fn law_errors_are_told_as_they_are(error: TxError)
    ensures
        error matches TxError::DatasetNotFound { dataset } ==> error@ == (TxErrorView::DatasetNotFound {
            dataset: dataset@,
        }),
        error matches TxError::CorruptLabel { dataset } ==> error@ == (TxErrorView::CorruptLabel { dataset: dataset@ }),
        error matches TxError::BrokenChain { chunk, parent } ==> error@ == (TxErrorView::BrokenChain {
            chunk: chunk@,
            parent: parent@,
        }),
        error matches TxError::Gap { chunk, below } ==> error@ == (TxErrorView::Gap { chunk: chunk@, below: below@ }),
        error matches TxError::Overlap { chunk, existing } ==> error@ == (TxErrorView::Overlap {
            chunk: chunk@,
            existing: existing@,
        }),
        error is EmptyChunk <==> error@ is EmptyChunk,
        error matches TxError::BrokenLink { chunk, neighbor } ==> error@ == (TxErrorView::BrokenLink {
            chunk: chunk@,
            neighbor: neighbor@,
        }),
        error matches TxError::NoParentHash { chunk, block_number } ==> error@ == (TxErrorView::NoParentHash {
            chunk: chunk@,
            block_number,
        }),
        error matches TxError::NoBlocksTable { chunk } ==> error@ == (TxErrorView::NoBlocksTable { chunk: chunk@ }),
{
}

} // verus!
