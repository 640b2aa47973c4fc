//! One transaction on the store.
//!
//! A [`Tx`] stages changes; the caller applies them to the store and commits them
//! together. What a decision needs to know of the store is read by the caller and
//! handed in.
use crate::duration::Duration;
use crate::storage::index::{
    self, encode_block_number, encode_transaction_position, is_indexed_kind, HashIndex, HashIndexWriteMetrics,
    HashIndexWriteView,
};
use crate::storage::mutation::{self, Mutation, MutationView};
use crate::storage::retry::{RetryPolicy, RetryPolicyView};
use crate::types::{
    self, BlockNumber, BlockRef, BlockRefView, Chunk, ChunkView, DatasetId, DatasetLabel, DatasetLabelView, ItemIndex,
    TableId,
};
use vstd::prelude::*;

verus! {

/// A transaction as its table lists it.
#[derive(Debug, PartialEq, Eq)]
pub struct TransactionRow {
    pub block_number: BlockNumber,
    pub transaction_index: ItemIndex,
    pub hash: String,
}

/// What a [`TransactionRow`] says.
pub struct TransactionRowView {
    pub block_number: BlockNumber,
    pub transaction_index: ItemIndex,
    pub hash: Seq<char>,
}

impl View for TransactionRow {
    type V = TransactionRowView;

    open spec fn view(&self) -> TransactionRowView {
        TransactionRowView {
            block_number: self.block_number,
            transaction_index: self.transaction_index,
            hash: self.hash@,
        }
    }
}

/// What a list of transactions says.
pub open spec fn transaction_rows(rows: Seq<TransactionRow>) -> Seq<TransactionRowView> {
    rows.map_values(|r: TransactionRow| r@)
}

/// What was read of the store to add or remove the index entries of a chunk.
#[derive(Debug)]
pub struct HashReading {
    /// Whether the block-hash index has any entry of the dataset.
    pub has_block_entries: bool,
    /// The blocks that the table `blocks` of the chunk lists.
    pub blocks: Vec<BlockRef>,
    /// How long the block-hash index took.
    pub block_time: Duration,
    /// Whether the transaction-hash index has any entry of the dataset.
    pub has_transaction_entries: bool,
    /// The transactions that the table `transactions` of the chunk lists.
    pub transactions: Vec<TransactionRow>,
    /// How long the transaction-hash index took.
    pub transaction_time: Duration,
}

/// What a [`HashReading`] says.
pub struct HashReadingView {
    pub has_block_entries: bool,
    pub blocks: Seq<BlockRefView>,
    pub block_time: nat,
    pub has_transaction_entries: bool,
    pub transactions: Seq<TransactionRowView>,
    pub transaction_time: nat,
}

impl View for HashReading {
    type V = HashReadingView;

    open spec fn view(&self) -> HashReadingView {
        HashReadingView {
            has_block_entries: self.has_block_entries,
            blocks: types::block_refs(self.blocks@),
            block_time: self.block_time@,
            has_transaction_entries: self.has_transaction_entries,
            transactions: transaction_rows(self.transactions@),
            transaction_time: self.transaction_time@,
        }
    }
}

/// Changes staged for one commit.
#[derive(Debug)]
pub struct Tx {
    block_hash_index: bool,
    transaction_hash_index: bool,
    retry_policy: RetryPolicy,
    hash_index_write_metrics: HashIndexWriteMetrics,
    staged: Vec<Mutation>,
}

/// What a [`Tx`] holds.
pub struct TxView {
    pub block_hash_index: bool,
    pub transaction_hash_index: bool,
    pub retry_policy: RetryPolicyView,
    pub metrics: HashIndexWriteView,
    pub staged: Seq<MutationView>,
}

impl View for Tx {
    type V = TxView;

    closed spec fn view(&self) -> TxView {
        TxView {
            block_hash_index: self.block_hash_index,
            transaction_hash_index: self.transaction_hash_index,
            retry_policy: self.retry_policy@,
            metrics: self.hash_index_write_metrics@,
            staged: mutation::mutation_views(self.staged@),
        }
    }
}

/// The changes that write a chunk: its tables are no longer dirty.
pub open spec fn chunk_written(dataset: Seq<char>, chunk: ChunkView) -> Seq<MutationView> {
    seq![MutationView::PutChunk { dataset, chunk }] + chunk.tables.map_values(
        |t: (Seq<char>, TableId)| MutationView::ClearDirtyTable { table: t.1 },
    )
}

/// The changes that remove a chunk: its tables are to be cleaned up.
pub open spec fn chunk_removed(dataset: Seq<char>, chunk: ChunkView) -> Seq<MutationView> {
    seq![MutationView::DeleteChunk { dataset, chunk }] + chunk.tables.map_values(
        |t: (Seq<char>, TableId)| MutationView::MarkDeletedTable { table: t.1 },
    )
}

/// The changes that add blocks to the block-hash index.
pub open spec fn blocks_indexed(dataset: Seq<char>, blocks: Seq<BlockRefView>) -> Seq<MutationView> {
    blocks.map_values(
        |b: BlockRefView|
            MutationView::PutBlockHash { dataset, hash: b.hash, height: index::be_bytes_8(b.number) },
    )
}

/// The changes that remove blocks from the block-hash index.
pub open spec fn blocks_unindexed(dataset: Seq<char>, blocks: Seq<BlockRefView>) -> Seq<MutationView> {
    blocks.map_values(|b: BlockRefView| MutationView::DeleteBlockHash { dataset, hash: b.hash })
}

/// The changes that add transactions to the transaction-hash index.
pub open spec fn transactions_indexed(dataset: Seq<char>, rows: Seq<TransactionRowView>) -> Seq<MutationView> {
    rows.map_values(
        |r: TransactionRowView|
            MutationView::PutTransactionHash {
                dataset,
                hash: r.hash,
                place: index::be_bytes_8(r.block_number) + index::be_bytes_4(r.transaction_index),
            },
    )
}

/// The changes that remove transactions from the transaction-hash index.
pub open spec fn transactions_unindexed(dataset: Seq<char>, rows: Seq<TransactionRowView>) -> Seq<MutationView> {
    rows.map_values(|r: TransactionRowView| MutationView::DeleteTransactionHash { dataset, hash: r.hash })
}

/// The table `blocks` of a chunk.
pub open spec fn blocks_table(chunk: ChunkView) -> Option<TableId> {
    types::table_named(chunk.tables, "blocks"@)
}

/// The table `transactions` of a chunk.
pub open spec fn transactions_table(chunk: ChunkView) -> Option<TableId> {
    types::table_named(chunk.tables, "transactions"@)
}

impl TxView {
    /// The transaction with more changes staged.
    pub open spec fn staging(self, more: Seq<MutationView>) -> TxView {
        TxView { staged: self.staged + more, ..self }
    }

    /// The transaction with one more index scan on record.
    pub open spec fn measuring(self, index: HashIndex, nanos: nat) -> TxView {
        TxView { metrics: self.metrics.recorded(index, nanos), ..self }
    }

    /// Whether the indexes of a dataset with that label are kept at all.
    pub open spec fn indexes(self, label: Option<DatasetLabelView>) -> bool {
        &&& self.block_hash_index || self.transaction_hash_index
        &&& label matches Some(l) && index::indexed_kind(l.kind)
    }

    /// After adding the blocks of `chunk` to the block-hash index.
    pub open spec fn block_hashes_added(
        self,
        dataset: Seq<char>,
        chunk: ChunkView,
        blocks: Seq<BlockRefView>,
    ) -> TxView {
        if blocks_table(chunk) is Some {
            self.staging(blocks_indexed(dataset, blocks))
        } else {
            self
        }
    }

    /// After adding the transactions of `chunk` to the transaction-hash index.
    pub open spec fn transaction_hashes_added(
        self,
        dataset: Seq<char>,
        chunk: ChunkView,
        rows: Seq<TransactionRowView>,
    ) -> TxView {
        if transactions_table(chunk) is Some {
            self.staging(transactions_indexed(dataset, rows))
        } else {
            self
        }
    }

    /// After adding the index entries of `chunk`.
    pub open spec fn hashes_added(
        self,
        dataset: Seq<char>,
        chunk: ChunkView,
        label: Option<DatasetLabelView>,
        reading: HashReadingView,
    ) -> TxView {
        let blocks = if self.indexes(label) && self.block_hash_index {
            self.block_hashes_added(dataset, chunk, reading.blocks).measuring(HashIndex::Block, reading.block_time)
        } else {
            self
        };
        if self.indexes(label) && self.transaction_hash_index {
            blocks.transaction_hashes_added(dataset, chunk, reading.transactions).measuring(
                HashIndex::Transaction,
                reading.transaction_time,
            )
        } else {
            blocks
        }
    }

    /// After removing the blocks of `chunk` from the block-hash index.
    pub open spec fn block_hashes_removed(
        self,
        dataset: Seq<char>,
        chunk: ChunkView,
        reading: HashReadingView,
    ) -> TxView {
        if reading.has_block_entries && blocks_table(chunk) is Some {
            self.staging(blocks_unindexed(dataset, reading.blocks))
        } else {
            self
        }
    }

    /// After removing the transactions of `chunk` from the transaction-hash index.
    pub open spec fn transaction_hashes_removed(
        self,
        dataset: Seq<char>,
        chunk: ChunkView,
        reading: HashReadingView,
    ) -> TxView {
        if reading.has_transaction_entries && transactions_table(chunk) is Some {
            self.staging(transactions_unindexed(dataset, reading.transactions))
        } else {
            self
        }
    }

    /// After removing the index entries of `chunk`.
    pub open spec fn hashes_removed(self, dataset: Seq<char>, chunk: ChunkView, reading: HashReadingView) -> TxView {
        self.block_hashes_removed(dataset, chunk, reading).measuring(
            HashIndex::Block,
            reading.block_time,
        ).transaction_hashes_removed(dataset, chunk, reading).measuring(
            HashIndex::Transaction,
            reading.transaction_time,
        )
    }
}

impl Tx {
    /// A transaction with the default retry policy, and no index switched on.
    pub fn new() -> (tx: Self)
        ensures
            tx@.staged.len() == 0,
            !tx@.block_hash_index && !tx@.transaction_hash_index,
            tx@.metrics == HashIndexWriteView::none(),
            tx@.retry_policy == (RetryPolicyView {
                max_attempts: 8,
                deadline: 30_000_000_000,
                base_backoff: 10_000_000,
                max_backoff: 1_000_000_000,
            }),
    {
        Tx::with_retry_policy(RetryPolicy::default())
    }

    /// A transaction with that retry policy, and no index switched on.
    pub fn with_retry_policy(retry_policy: RetryPolicy) -> (tx: Self)
        ensures
            tx@ == (TxView {
                block_hash_index: false,
                transaction_hash_index: false,
                retry_policy: retry_policy@,
                metrics: HashIndexWriteView::none(),
                staged: Seq::empty(),
            }),
    {
        let tx: Tx = Tx {
            block_hash_index: false,
            transaction_hash_index: false,
            retry_policy,
            hash_index_write_metrics: HashIndexWriteMetrics::default(),
            staged: Vec::new(),
        };
        assert(tx@.staged =~= Seq::empty());
        tx
    }

    /// Switches the block-hash index on or off for chunks written through this
    /// transaction.
    pub fn with_block_hash_index(self, yes: bool) -> (tx: Self)
        ensures
            tx@ == (TxView { block_hash_index: yes, ..self@ }),
    {
        Tx { block_hash_index: yes, ..self }
    }

    /// Switches the transaction-hash index on or off, independently of the other
    /// one.
    pub fn with_transaction_hash_index(self, yes: bool) -> (tx: Self)
        ensures
            tx@ == (TxView { transaction_hash_index: yes, ..self@ }),
    {
        Tx { transaction_hash_index: yes, ..self }
    }

    /// Takes the changes staged since the last call, to be applied to the store
    /// before it is read again.
    pub fn take_staged(&mut self) -> (changes: Vec<Mutation>)
        ensures
            mutation::mutation_views(changes@) == old(self)@.staged,
            final(self)@ == (TxView { staged: Seq::empty(), ..old(self)@ }),
    {
        let mut changes: Vec<Mutation> = Vec::new();
        changes.append(&mut self.staged);
        assert(changes@ =~= old(self).staged@);
        assert(self@.staged =~= Seq::empty());
        changes
    }

    /// Ends the transaction: the changes to commit, and what the indexes cost.
    pub fn commit(self) -> (r: (Vec<Mutation>, HashIndexWriteMetrics))
        ensures
            mutation::mutation_views(r.0@) == self@.staged,
            r.1@ == self@.metrics,
            r.1@.in_range(),
    {
        let Tx { staged, hash_index_write_metrics, .. } = self;
        proof {
            use_type_invariant(&hash_index_write_metrics);
        }
        (staged, hash_index_write_metrics)
    }

    /// Stages one change.
    fn stage(&mut self, change: Mutation)
        ensures
            final(self)@ == old(self)@.staging(seq![change@]),
    {
        self.staged.push(change);
        assert(self@.staged =~= old(self)@.staged + seq![change@]);
    }

    /// Takes down how long an index scan took.
    pub fn measure_hash_index(&mut self, index: HashIndex, elapsed: Duration)
        ensures
            final(self)@ == old(self)@.measuring(index, elapsed@),
    {
        self.hash_index_write_metrics.record(index, elapsed);
    }

    /// Stages a label.
    pub fn write_label(&mut self, dataset_id: &DatasetId, label: &DatasetLabel)
        ensures
            final(self)@ == old(self)@.staging(
                seq![MutationView::PutLabel { dataset: dataset_id@, label: label@ }],
            ),
    {
        self.stage(Mutation::PutLabel { dataset: dataset_id.clone(), label: label.clone() });
    }

    /// Stages the removal of a label.
    pub fn delete_label(&mut self, dataset_id: &DatasetId)
        ensures
            final(self)@ == old(self)@.staging(seq![MutationView::DeleteLabel { dataset: dataset_id@ }]),
    {
        self.stage(Mutation::DeleteLabel { dataset: dataset_id.clone() });
    }

    /// Stages a chunk.
    pub fn write_chunk(&mut self, dataset_id: &DatasetId, chunk: &Chunk)
        ensures
            final(self)@ == old(self)@.staging(chunk_written(dataset_id@, chunk@)),
    {
        self.stage(Mutation::PutChunk { dataset: dataset_id.clone(), chunk: chunk.clone() });
        let ghost tables = chunk@.tables.map_values(
            |t: (Seq<char>, TableId)| MutationView::ClearDirtyTable { table: t.1 },
        );
        let ghost put = self@;
        let mut i: usize = 0;
        assert(put.staged + tables.take(0) =~= put.staged);
        while i < chunk.table_count()
            invariant
                i <= chunk@.tables.len(),
                tables == chunk@.tables.map_values(
                    |t: (Seq<char>, TableId)| MutationView::ClearDirtyTable { table: t.1 },
                ),
                self@ == put.staging(tables.take(i as int)),
            decreases chunk@.tables.len() - i,
        {
            self.stage(Mutation::ClearDirtyTable { table: chunk.table_at(i) });
            assert(tables.take(i as int) + seq![tables[i as int]] =~= tables.take(i + 1));
            assert(put.staged + tables.take(i as int) + seq![tables[i as int]] =~= put.staged + tables.take(i + 1));
            i += 1;
        }
        assert(tables.take(i as int) =~= tables);
        assert(self@.staged =~= old(self)@.staged + chunk_written(dataset_id@, chunk@));
    }

    /// Stages the removal of a chunk.
    pub fn delete_chunk(&mut self, dataset_id: &DatasetId, chunk: &Chunk)
        ensures
            final(self)@ == old(self)@.staging(chunk_removed(dataset_id@, chunk@)),
    {
        self.stage(Mutation::DeleteChunk { dataset: dataset_id.clone(), chunk: chunk.clone() });
        let ghost tables = chunk@.tables.map_values(
            |t: (Seq<char>, TableId)| MutationView::MarkDeletedTable { table: t.1 },
        );
        let ghost put = self@;
        let mut i: usize = 0;
        assert(put.staged + tables.take(0) =~= put.staged);
        while i < chunk.table_count()
            invariant
                i <= chunk@.tables.len(),
                tables == chunk@.tables.map_values(
                    |t: (Seq<char>, TableId)| MutationView::MarkDeletedTable { table: t.1 },
                ),
                self@ == put.staging(tables.take(i as int)),
            decreases chunk@.tables.len() - i,
        {
            self.delete_table(chunk.table_at(i));
            assert(tables.take(i as int) + seq![tables[i as int]] =~= tables.take(i + 1));
            assert(put.staged + tables.take(i as int) + seq![tables[i as int]] =~= put.staged + tables.take(i + 1));
            i += 1;
        }
        assert(tables.take(i as int) =~= tables);
        assert(self@.staged =~= old(self)@.staged + chunk_removed(dataset_id@, chunk@));
    }

    /// Stages a table for later cleanup.
    pub fn delete_table(&mut self, table_id: TableId)
        ensures
            final(self)@ == old(self)@.staging(seq![MutationView::MarkDeletedTable { table: table_id }]),
    {
        self.stage(Mutation::MarkDeletedTable { table: table_id });
    }
}

impl Tx {
    /// Stages the index entries of a chunk, as far as the indexes are switched on
    /// and the dataset, whose label is given, is of an indexed kind.
    pub fn index_hashes(
        &mut self,
        dataset_id: &DatasetId,
        chunk: &Chunk,
        label: Option<&DatasetLabel>,
        reading: &HashReading,
    )
        ensures
            final(self)@ == old(self)@.hashes_added(
                dataset_id@,
                chunk@,
                match label {
                    Some(l) => Some(l@),
                    None => None,
                },
                reading@,
            ),
    {
        if !self.keeps_indexes(label) {
            return;
        }
        if self.block_hash_index {
            self.index_block_hashes(dataset_id, chunk, &reading.blocks);
            self.measure_hash_index(HashIndex::Block, reading.block_time);
        }
        if self.transaction_hash_index {
            self.index_transaction_hashes(dataset_id, chunk, &reading.transactions);
            self.measure_hash_index(HashIndex::Transaction, reading.transaction_time);
        }
    }

    /// Whether the indexes of a dataset with that label are kept at all. There is
    /// nothing to index for a dataset that does not exist.
    pub fn keeps_indexes(&self, label: Option<&DatasetLabel>) -> (keeps: bool)
        ensures
            keeps == self@.indexes(
                match label {
                    Some(l) => Some(l@),
                    None => None,
                },
            ),
    {
        if !self.block_hash_index && !self.transaction_hash_index {
            return false;
        }
        match label {
            Some(l) => is_indexed_kind(&l.kind),
            None => false,
        }
    }

    /// The retry policy.
    pub fn retry_policy(&self) -> (policy: RetryPolicy)
        ensures
            policy@ == self@.retry_policy,
    {
        self.retry_policy
    }

    /// Whether the block-hash index is switched on.
    pub fn has_block_hash_index(&self) -> (on: bool)
        ensures
            on == self@.block_hash_index,
    {
        self.block_hash_index
    }

    /// Whether the transaction-hash index is switched on.
    pub fn has_transaction_hash_index(&self) -> (on: bool)
        ensures
            on == self@.transaction_hash_index,
    {
        self.transaction_hash_index
    }

    /// Stages the block-hash entries of a chunk; a chunk without blocks has none.
    pub fn index_block_hashes(&mut self, dataset_id: &DatasetId, chunk: &Chunk, blocks: &Vec<BlockRef>)
        ensures
            final(self)@ == old(self)@.block_hashes_added(dataset_id@, chunk@, types::block_refs(blocks@)),
    {
        if chunk.table("blocks").is_none() {
            return;
        }
        let ghost entries = blocks_indexed(dataset_id@, types::block_refs(blocks@));
        let mut i: usize = 0;
        assert(self@.staged + entries.take(0) =~= self@.staged);
        while i < blocks.len()
            invariant
                i <= blocks.len(),
                entries == blocks_indexed(dataset_id@, types::block_refs(blocks@)),
                self@ == old(self)@.staging(entries.take(i as int)),
            decreases blocks.len() - i,
        {
            let change: Mutation = Mutation::PutBlockHash {
                dataset: dataset_id.clone(),
                hash: blocks[i].hash.clone(),
                height: encode_block_number(blocks[i].number),
            };
            assert(change@ == entries[i as int]);
            self.stage(change);
            assert(old(self)@.staged + entries.take(i as int) + seq![entries[i as int]] =~= old(self)@.staged
                + entries.take(i + 1));
            i += 1;
        }
        assert(entries.take(i as int) =~= entries);
    }

    /// Stages the transaction-hash entries of a chunk; a chunk without
    /// transactions has none.
    pub fn index_transaction_hashes(
        &mut self,
        dataset_id: &DatasetId,
        chunk: &Chunk,
        rows: &Vec<TransactionRow>,
    )
        ensures
            final(self)@ == old(self)@.transaction_hashes_added(dataset_id@, chunk@, transaction_rows(rows@)),
    {
        if chunk.table("transactions").is_none() {
            return;
        }
        let ghost entries = transactions_indexed(dataset_id@, transaction_rows(rows@));
        let mut i: usize = 0;
        assert(self@.staged + entries.take(0) =~= self@.staged);
        while i < rows.len()
            invariant
                i <= rows.len(),
                entries == transactions_indexed(dataset_id@, transaction_rows(rows@)),
                self@ == old(self)@.staging(entries.take(i as int)),
            decreases rows.len() - i,
        {
            let change: Mutation = Mutation::PutTransactionHash {
                dataset: dataset_id.clone(),
                hash: rows[i].hash.clone(),
                place: encode_transaction_position(rows[i].block_number, rows[i].transaction_index),
            };
            assert(change@ == entries[i as int]);
            self.stage(change);
            assert(old(self)@.staged + entries.take(i as int) + seq![entries[i as int]] =~= old(self)@.staged
                + entries.take(i + 1));
            i += 1;
        }
        assert(entries.take(i as int) =~= entries);
    }

    /// Stages the removal of every index entry that a chunk has contributed.
    ///
    /// This depends neither on the switches nor on the kind of the dataset: entries
    /// written while a switch was on must go with their chunk, or they would stay
    /// for ever. Where an index has no entry of the dataset at all, its tables are
    /// not looked at.
    pub fn unindex_hashes(&mut self, dataset_id: &DatasetId, chunk: &Chunk, reading: &HashReading)
        ensures
            final(self)@ == old(self)@.hashes_removed(dataset_id@, chunk@, reading@),
    {
        self.unindex_block_hashes(dataset_id, chunk, reading);
        self.measure_hash_index(HashIndex::Block, reading.block_time);
        self.unindex_transaction_hashes(dataset_id, chunk, reading);
        self.measure_hash_index(HashIndex::Transaction, reading.transaction_time);
    }

    /// Stages the removal of the block-hash entries of a chunk.
    pub fn unindex_block_hashes(&mut self, dataset_id: &DatasetId, chunk: &Chunk, reading: &HashReading)
        ensures
            final(self)@ == old(self)@.block_hashes_removed(dataset_id@, chunk@, reading@),
    {
        if !reading.has_block_entries {
            return;
        }
        if chunk.table("blocks").is_none() {
            return;
        }
        let ghost entries = blocks_unindexed(dataset_id@, reading@.blocks);
        let mut i: usize = 0;
        assert(self@.staged + entries.take(0) =~= self@.staged);
        while i < reading.blocks.len()
            invariant
                i <= reading.blocks.len(),
                entries == blocks_unindexed(dataset_id@, reading@.blocks),
                self@ == old(self)@.staging(entries.take(i as int)),
            decreases reading.blocks.len() - i,
        {
            let change: Mutation = Mutation::DeleteBlockHash {
                dataset: dataset_id.clone(),
                hash: reading.blocks[i].hash.clone(),
            };
            assert(change@ == entries[i as int]);
            self.stage(change);
            assert(old(self)@.staged + entries.take(i as int) + seq![entries[i as int]] =~= old(self)@.staged
                + entries.take(i + 1));
            i += 1;
        }
        assert(entries.take(i as int) =~= entries);
    }

    /// Stages the removal of the transaction-hash entries of a chunk.
    pub fn unindex_transaction_hashes(&mut self, dataset_id: &DatasetId, chunk: &Chunk, reading: &HashReading)
        ensures
            final(self)@ == old(self)@.transaction_hashes_removed(dataset_id@, chunk@, reading@),
    {
        if !reading.has_transaction_entries {
            return;
        }
        if chunk.table("transactions").is_none() {
            return;
        }
        let ghost entries = transactions_unindexed(dataset_id@, reading@.transactions);
        let mut i: usize = 0;
        assert(self@.staged + entries.take(0) =~= self@.staged);
        while i < reading.transactions.len()
            invariant
                i <= reading.transactions.len(),
                entries == transactions_unindexed(dataset_id@, reading@.transactions),
                self@ == old(self)@.staging(entries.take(i as int)),
            decreases reading.transactions.len() - i,
        {
            let change: Mutation = Mutation::DeleteTransactionHash {
                dataset: dataset_id.clone(),
                hash: reading.transactions[i].hash.clone(),
            };
            assert(change@ == entries[i as int]);
            self.stage(change);
            assert(old(self)@.staged + entries.take(i as int) + seq![entries[i as int]] =~= old(self)@.staged
                + entries.take(i + 1));
            i += 1;
        }
        assert(entries.take(i as int) =~= entries);
    }
}

/// Why a transaction cannot do what it was asked for.
#[derive(Debug)]
pub enum TxError {
    /// The dataset does not exist.
    DatasetNotFound { dataset: DatasetId },
    /// What is stored as the label of the dataset is none.
    CorruptLabel { dataset: DatasetId },
    /// The chunk right below ends in another block than the parent of the new
    /// chunk.
    BrokenChain { chunk: Chunk, parent: Chunk },
    /// There are heights missing between the new chunk and the one below.
    Gap { chunk: Chunk, below: Chunk },
    /// The new chunk shares heights with an existing one.
    Overlap { chunk: Chunk, existing: Chunk },
    /// The chunk ends before it begins.
    EmptyChunk,
    /// The new chunk and the existing one right next to it do not link.
    BrokenLink { chunk: Chunk, neighbor: Chunk },
    /// The chunk does not know the parent of that block.
    NoParentHash { chunk: Chunk, block_number: BlockNumber },
    /// The chunk has no table `blocks`.
    NoBlocksTable { chunk: Chunk },
}

/// What a [`TxError`] says.
pub enum TxErrorView {
    DatasetNotFound { dataset: Seq<char> },
    CorruptLabel { dataset: Seq<char> },
    BrokenChain { chunk: ChunkView, parent: ChunkView },
    Gap { chunk: ChunkView, below: ChunkView },
    Overlap { chunk: ChunkView, existing: ChunkView },
    EmptyChunk,
    BrokenLink { chunk: ChunkView, neighbor: ChunkView },
    NoParentHash { chunk: ChunkView, block_number: BlockNumber },
    NoBlocksTable { chunk: ChunkView },
}

impl View for TxError {
    type V = TxErrorView;

    open spec fn view(&self) -> TxErrorView {
        match self {
            TxError::DatasetNotFound { dataset } => TxErrorView::DatasetNotFound { dataset: dataset@ },
            TxError::CorruptLabel { dataset } => TxErrorView::CorruptLabel { dataset: dataset@ },
            TxError::BrokenChain { chunk, parent } => TxErrorView::BrokenChain { chunk: chunk@, parent: parent@ },
            TxError::Gap { chunk, below } => TxErrorView::Gap { chunk: chunk@, below: below@ },
            TxError::Overlap { chunk, existing } => TxErrorView::Overlap { chunk: chunk@, existing: existing@ },
            TxError::EmptyChunk => TxErrorView::EmptyChunk,
            TxError::BrokenLink { chunk, neighbor } => TxErrorView::BrokenLink {
                chunk: chunk@,
                neighbor: neighbor@,
            },
            TxError::NoParentHash { chunk, block_number } => TxErrorView::NoParentHash {
                chunk: chunk@,
                block_number: *block_number,
            },
            TxError::NoBlocksTable { chunk } => TxErrorView::NoBlocksTable { chunk: chunk@ },
        }
    }
}

} // verus!
