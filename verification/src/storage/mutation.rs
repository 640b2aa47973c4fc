//! Changes of the store, as a transaction stages them.
use crate::types::{BlockNumber, Chunk, ChunkView, DatasetId, DatasetLabel, DatasetLabelView, TableId};
use vstd::prelude::*;

verus! {

/// One change of the store.
#[derive(Debug)]
pub enum Mutation {
    PutLabel { dataset: DatasetId, label: DatasetLabel },
    DeleteLabel { dataset: DatasetId },
    PutChunk { dataset: DatasetId, chunk: Chunk },
    DeleteChunk { dataset: DatasetId, chunk: Chunk },
    /// The table is no longer left over from an unfinished write.
    ClearDirtyTable { table: TableId },
    /// The table is to be cleaned up later. Its presence is the signal.
    MarkDeletedTable { table: TableId },
    PutBlockHash { dataset: DatasetId, hash: String, height: [u8; 8] },
    DeleteBlockHash { dataset: DatasetId, hash: String },
    PutTransactionHash { dataset: DatasetId, hash: String, place: [u8; 12] },
    DeleteTransactionHash { dataset: DatasetId, hash: String },
}

/// What a [`Mutation`] says.
pub enum MutationView {
    PutLabel { dataset: Seq<char>, label: DatasetLabelView },
    DeleteLabel { dataset: Seq<char> },
    PutChunk { dataset: Seq<char>, chunk: ChunkView },
    DeleteChunk { dataset: Seq<char>, chunk: ChunkView },
    ClearDirtyTable { table: TableId },
    MarkDeletedTable { table: TableId },
    PutBlockHash { dataset: Seq<char>, hash: Seq<char>, height: Seq<u8> },
    DeleteBlockHash { dataset: Seq<char>, hash: Seq<char> },
    PutTransactionHash { dataset: Seq<char>, hash: Seq<char>, place: Seq<u8> },
    DeleteTransactionHash { dataset: Seq<char>, hash: Seq<char> },
}

impl View for Mutation {
    type V = MutationView;

    open spec fn view(&self) -> MutationView {
        match self {
            Mutation::PutLabel { dataset, label } => MutationView::PutLabel { dataset: dataset@, label: label@ },
            Mutation::DeleteLabel { dataset } => MutationView::DeleteLabel { dataset: dataset@ },
            Mutation::PutChunk { dataset, chunk } => MutationView::PutChunk { dataset: dataset@, chunk: chunk@ },
            Mutation::DeleteChunk { dataset, chunk } => MutationView::DeleteChunk {
                dataset: dataset@,
                chunk: chunk@,
            },
            Mutation::ClearDirtyTable { table } => MutationView::ClearDirtyTable { table: *table },
            Mutation::MarkDeletedTable { table } => MutationView::MarkDeletedTable { table: *table },
            Mutation::PutBlockHash { dataset, hash, height } => MutationView::PutBlockHash {
                dataset: dataset@,
                hash: hash@,
                height: height@,
            },
            Mutation::DeleteBlockHash { dataset, hash } => MutationView::DeleteBlockHash {
                dataset: dataset@,
                hash: hash@,
            },
            Mutation::PutTransactionHash { dataset, hash, place } => MutationView::PutTransactionHash {
                dataset: dataset@,
                hash: hash@,
                place: place@,
            },
            Mutation::DeleteTransactionHash { dataset, hash } => MutationView::DeleteTransactionHash {
                dataset: dataset@,
                hash: hash@,
            },
        }
    }
}

/// What a list of changes says.
pub open spec fn mutation_views(mutations: Seq<Mutation>) -> Seq<MutationView> {
    mutations.map_values(|m: Mutation| m@)
}

/// What the store holds.
#[verifier::ext_equal]
pub struct StoreView {
    pub labels: Map<Seq<char>, DatasetLabelView>,
    /// The chunks, each found by its dataset and its last height.
    pub chunks: Map<(Seq<char>, BlockNumber), ChunkView>,
    pub dirty_tables: Set<TableId>,
    pub deleted_tables: Set<TableId>,
    /// By dataset and hash.
    pub block_hashes: Map<(Seq<char>, Seq<char>), Seq<u8>>,
    /// By dataset and hash.
    pub transaction_hashes: Map<(Seq<char>, Seq<char>), Seq<u8>>,
}

impl StoreView {
    /// The store after one change.
    pub open spec fn changed(self, mutation: MutationView) -> StoreView {
        match mutation {
            MutationView::PutLabel { dataset, label } => StoreView {
                labels: self.labels.insert(dataset, label),
                ..self
            },
            MutationView::DeleteLabel { dataset } => StoreView { labels: self.labels.remove(dataset), ..self },
            MutationView::PutChunk { dataset, chunk } => StoreView {
                chunks: self.chunks.insert((dataset, chunk.last_block), chunk),
                ..self
            },
            MutationView::DeleteChunk { dataset, chunk } => StoreView {
                chunks: self.chunks.remove((dataset, chunk.last_block)),
                ..self
            },
            MutationView::ClearDirtyTable { table } => StoreView {
                dirty_tables: self.dirty_tables.remove(table),
                ..self
            },
            MutationView::MarkDeletedTable { table } => StoreView {
                deleted_tables: self.deleted_tables.insert(table),
                ..self
            },
            MutationView::PutBlockHash { dataset, hash, height } => StoreView {
                block_hashes: self.block_hashes.insert((dataset, hash), height),
                ..self
            },
            MutationView::DeleteBlockHash { dataset, hash } => StoreView {
                block_hashes: self.block_hashes.remove((dataset, hash)),
                ..self
            },
            MutationView::PutTransactionHash { dataset, hash, place } => StoreView {
                transaction_hashes: self.transaction_hashes.insert((dataset, hash), place),
                ..self
            },
            MutationView::DeleteTransactionHash { dataset, hash } => StoreView {
                transaction_hashes: self.transaction_hashes.remove((dataset, hash)),
                ..self
            },
        }
    }

    /// The store after all the changes, in order.
    pub open spec fn after(self, mutations: Seq<MutationView>) -> StoreView
        decreases mutations.len(),
    {
        if mutations.len() == 0 {
            self
        } else {
            self.after(mutations.drop_last()).changed(mutations.last())
        }
    }

    /// Whether the block-hash index has an entry of `dataset`.
    pub open spec fn has_block_hashes(self, dataset: Seq<char>) -> bool {
        exists|hash: Seq<char>| #[trigger] self.block_hashes.contains_key((dataset, hash))
    }

    /// Whether the transaction-hash index has an entry of `dataset`.
    pub open spec fn has_transaction_hashes(self, dataset: Seq<char>) -> bool {
        exists|hash: Seq<char>| #[trigger] self.transaction_hashes.contains_key((dataset, hash))
    }
}

/// Changes made one list after the other.
pub proof fn lemma_after_concat(store: StoreView, first: Seq<MutationView>, second: Seq<MutationView>)
    ensures
        store.after(first + second) == store.after(first).after(second),
    decreases second.len(),
{
    if second.len() == 0 {
        assert(first + second =~= first);
    } else {
        lemma_after_concat(store, first, second.drop_last());
        assert((first + second).drop_last() =~= first + second.drop_last());
    }
}

} // verus!
