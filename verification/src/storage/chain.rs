//! Keeping the chunks of a dataset a chain.
use crate::storage::codec::{self, decode_label, Corrupt};
use crate::storage::tx::{self, HashReading, HashReadingView, Tx, TxError, TxErrorView, TxView};
use crate::types::{self, BlockNumber, Chunk, ChunkView, DatasetId, DatasetLabel, DatasetLabelView, TableId};
use vstd::prelude::*;

verus! {

/// What to do about an existing chunk before a new one is put on top.
#[derive(Clone, Copy, Debug, PartialEq, Eq, Structural)]
pub enum ForkStep {
    /// It is replaced, and so the one below is to be looked at.
    Replace,
    /// The new chunk goes right on top of it.
    Attach,
}

/// What to do about the existing chunk `head` before `chunk` is put on top.
pub open spec fn fork_step_of(chunk: ChunkView, head: ChunkView) -> Result<ForkStep, TxErrorView> {
    if chunk.first_block <= head.first_block {
        Ok(ForkStep::Replace)
    } else if head.last_block + 1 == chunk.first_block {
        if head.last_block_hash == chunk.parent_block_hash {
            Ok(ForkStep::Attach)
        } else {
            Err(TxErrorView::BrokenChain { chunk, parent: head })
        }
    } else if head.last_block < chunk.first_block {
        Err(TxErrorView::Gap { chunk, below: head })
    } else {
        Err(TxErrorView::Overlap { chunk, existing: head })
    }
}

/// An existing chunk, with what was read to remove its index entries.
#[derive(Debug)]
pub struct StoredHead {
    pub chunk: Chunk,
    pub reading: HashReading,
}

/// What a [`StoredHead`] says.
pub struct StoredHeadView {
    pub chunk: ChunkView,
    pub reading: HashReadingView,
}

impl View for StoredHead {
    type V = StoredHeadView;

    open spec fn view(&self) -> StoredHeadView {
        StoredHeadView { chunk: self.chunk@, reading: self.reading@ }
    }
}

/// What a list of existing chunks says.
pub open spec fn head_views(heads: Seq<StoredHead>) -> Seq<StoredHeadView> {
    heads.map_values(|h: StoredHead| h@)
}

/// The first of the existing chunks, from `from` on, that is not replaced.
pub open spec fn first_kept(chunk: ChunkView, heads: Seq<StoredHeadView>, from: nat) -> nat
    decreases heads.len() - from,
{
    if from < heads.len() && fork_step_of(chunk, heads[from as int].chunk) == Ok::<ForkStep, TxErrorView>(
        ForkStep::Replace,
    ) {
        first_kept(chunk, heads, from + 1)
    } else {
        from
    }
}

/// What keeps `chunk` from being put on top of the existing chunks, newest first.
pub open spec fn fork_fault(chunk: ChunkView, heads: Seq<StoredHeadView>) -> Option<TxErrorView> {
    let kept = first_kept(chunk, heads, 0);
    if kept < heads.len() {
        match fork_step_of(chunk, heads[kept as int].chunk) {
            Ok(_) => None,
            Err(error) => Some(error),
        }
    } else {
        None
    }
}

impl TxView {
    /// After removing a chunk and its index entries.
    pub open spec fn head_removed(self, dataset: Seq<char>, head: StoredHeadView) -> TxView {
        self.hashes_removed(dataset, head.chunk, head.reading).staging(tx::chunk_removed(dataset, head.chunk))
    }

    /// After removing the first `n` existing chunks and their index entries.
    pub open spec fn heads_removed(self, dataset: Seq<char>, heads: Seq<StoredHeadView>, n: nat) -> TxView
        decreases n,
    {
        if n == 0 {
            self
        } else {
            self.heads_removed(dataset, heads, (n - 1) as nat).head_removed(dataset, heads[n - 1])
        }
    }

    /// After adding a chunk and its index entries.
    pub open spec fn chunk_added(
        self,
        dataset: Seq<char>,
        chunk: ChunkView,
        label: Option<DatasetLabelView>,
        reading: HashReadingView,
    ) -> TxView {
        self.staging(tx::chunk_written(dataset, chunk)).hashes_added(dataset, chunk, label, reading)
    }
}

/// Whether two chunks share no height.
pub open spec fn disjoint(a: ChunkView, b: ChunkView) -> bool {
    let end = if a.last_block <= b.last_block {
        a.last_block
    } else {
        b.last_block
    };
    let start = if a.first_block >= b.first_block {
        a.first_block
    } else {
        b.first_block
    };
    end < start
}

/// Whether `upper` begins right above `lower`.
pub open spec fn right_above(upper: ChunkView, lower: ChunkView) -> bool {
    lower.last_block + 1 == upper.first_block
}

/// Whether `upper` names the last block of `lower` as its parent.
pub open spec fn linked(upper: ChunkView, lower: ChunkView) -> bool {
    lower.last_block_hash == upper.parent_block_hash
}

/// What keeps `chunk` from standing next to the existing chunk `n`.
pub open spec fn neighbor_fault(chunk: ChunkView, n: ChunkView) -> Option<TxErrorView> {
    if !disjoint(n, chunk) {
        Some(TxErrorView::Overlap { chunk, existing: n })
    } else if right_above(n, chunk) && !linked(n, chunk) {
        Some(TxErrorView::BrokenLink { chunk, neighbor: n })
    } else if right_above(chunk, n) && !linked(chunk, n) {
        Some(TxErrorView::BrokenLink { chunk, neighbor: n })
    } else {
        None
    }
}

/// The `count` newest of the chunks that begin at `to` or below, newest first.
pub open spec fn newest_below(chunks: Seq<ChunkView>, to: int, count: nat) -> Seq<ChunkView>
    decreases chunks.len(),
{
    if chunks.len() == 0 || count == 0 {
        Seq::empty()
    } else if chunks.last().first_block <= to {
        seq![chunks.last()] + newest_below(chunks.drop_last(), to, (count - 1) as nat)
    } else {
        newest_below(chunks.drop_last(), to, count)
    }
}

/// The first fault that `chunk` has with one of the neighbors.
pub open spec fn first_neighbor_fault(chunk: ChunkView, neighbors: Seq<ChunkView>) -> Option<TxErrorView>
    decreases neighbors.len(),
{
    if neighbors.len() == 0 {
        None
    } else if neighbor_fault(chunk, neighbors[0]) is Some {
        neighbor_fault(chunk, neighbors[0])
    } else {
        first_neighbor_fault(chunk, neighbors.skip(1))
    }
}

/// What keeps `chunk` from being inserted among the existing chunks, oldest first.
pub open spec fn insertion_fault(chunk: ChunkView, existing: Seq<ChunkView>) -> Option<TxErrorView> {
    if chunk.first_block > chunk.last_block {
        Some(TxErrorView::EmptyChunk)
    } else {
        first_neighbor_fault(chunk, newest_below(existing, chunk.last_block + 1, 2))
    }
}

/// Whether a chunk reaches into the heights from `from` to `to`.
pub open spec fn reaches_into(chunk: ChunkView, from: BlockNumber, to: Option<BlockNumber>) -> bool {
    chunk.last_block >= from && (to matches Some(t) ==> chunk.first_block <= t)
}

/// The chunks that reach into the heights from `from` to `to`.
pub open spec fn selected(chunks: Seq<ChunkView>, from: BlockNumber, to: Option<BlockNumber>) -> Seq<ChunkView>
    decreases chunks.len(),
{
    if chunks.len() == 0 {
        Seq::empty()
    } else {
        let rest = selected(chunks.drop_last(), from, to);
        if reaches_into(chunks.last(), from, to) {
            rest.push(chunks.last())
        } else {
            rest
        }
    }
}

/// What a chunk knows itself of the parent of a block.
#[derive(Debug)]
pub enum ParentHash {
    /// It is the one expected.
    Matches,
    /// It is another one.
    Differs(String),
    /// It is to be read from that table, and handed to [`Tx::check_parent_hash`].
    InTable(TableId),
}

impl Tx {
    /// What to do about the existing chunk `head` before `chunk` is put on top.
    pub fn fork_step(chunk: &Chunk, head: &Chunk) -> (step: Result<ForkStep, TxError>)
        ensures
            match step {
                Ok(s) => fork_step_of(chunk@, head@) == Ok::<ForkStep, TxErrorView>(s),
                Err(e) => fork_step_of(chunk@, head@) == Err::<ForkStep, TxErrorView>(e@),
            },
    {
        if chunk.first_block() <= head.first_block() {
            Ok(ForkStep::Replace)
        } else if head.last_block() < chunk.first_block() {
            if head.last_block() + 1 == chunk.first_block() {
                if *head.last_block_hash() == *chunk.parent_block_hash() {
                    Ok(ForkStep::Attach)
                } else {
                    Err(TxError::BrokenChain { chunk: chunk.clone(), parent: head.clone() })
                }
            } else {
                Err(TxError::Gap { chunk: chunk.clone(), below: head.clone() })
            }
        } else {
            Err(TxError::Overlap { chunk: chunk.clone(), existing: head.clone() })
        }
    }

    /// Puts `chunk` on top of the chain, in place of all existing chunks that do not
    /// begin below it. `heads` are the existing chunks, newest first, at least down
    /// to the first one that stays.
    pub fn insert_fork(
        &mut self,
        dataset_id: &DatasetId,
        chunk: &Chunk,
        heads: &Vec<StoredHead>,
        label: Option<&DatasetLabel>,
        reading: &HashReading,
    ) -> (result: Result<(), TxError>)
        ensures
            result is Err == fork_fault(chunk@, head_views(heads@)) is Some,
            result matches Err(e) ==> fork_fault(chunk@, head_views(heads@)) == Some(e@),
            ({
                let removed = old(self)@.heads_removed(
                    dataset_id@,
                    head_views(heads@),
                    first_kept(chunk@, head_views(heads@), 0),
                );
                final(self)@ == if result is Ok {
                    removed.chunk_added(
                        dataset_id@,
                        chunk@,
                        match label {
                            Some(l) => Some(l@),
                            None => None,
                        },
                        reading@,
                    )
                } else {
                    removed
                }
            }),
    {
        let ghost views = head_views(heads@);
        let mut i: usize = 0;
        while i < heads.len()
            invariant_except_break
                i <= heads.len(),
                views == head_views(heads@),
                first_kept(chunk@, views, i as nat) == first_kept(chunk@, views, 0),
                self@ == old(self)@.heads_removed(dataset_id@, views, i as nat),
            ensures
                i <= heads.len(),
                i == first_kept(chunk@, views, 0),
                i < heads.len() ==> fork_step_of(chunk@, views[i as int].chunk) is Ok,
                self@ == old(self)@.heads_removed(dataset_id@, views, i as nat),
            decreases heads.len() - i,
        {
            let head: &StoredHead = &heads[i];
            assert(views[i as int] == head@);
            match Tx::fork_step(chunk, &head.chunk) {
                Ok(ForkStep::Replace) => {
                    self.unindex_hashes(dataset_id, &head.chunk, &head.reading);
                    self.delete_chunk(dataset_id, &head.chunk);
                },
                Ok(ForkStep::Attach) => {
                    break;
                },
                Err(error) => {
                    return Err(error);
                },
            }
            i += 1;
        }
        self.write_chunk(dataset_id, chunk);
        self.index_hashes(dataset_id, chunk, label, reading);
        Ok(())
    }

    /// Whether `chunk` can stand among the existing chunks of its dataset, oldest
    /// first: it shares no height with its neighbors, and links to those right next
    /// to it.
    pub fn validate_chunk_insertion(chunk: &Chunk, existing: &Vec<Chunk>) -> (result: Result<(), TxError>)
        requires
            chunk@.first_block <= chunk@.last_block ==> chunk@.last_block < u64::MAX,
        ensures
            result is Err == insertion_fault(chunk@, types::chunk_views(existing@)) is Some,
            result matches Err(e) ==> insertion_fault(chunk@, types::chunk_views(existing@)) == Some(e@),
    {
        if chunk.first_block() > chunk.last_block() {
            return Err(TxError::EmptyChunk);
        }
        let to: BlockNumber = chunk.last_block() + 1;
        let ghost views = types::chunk_views(existing@);
        let mut left: usize = 2;
        let mut i: usize = existing.len();
        assert(views.take(i as int) =~= views);
        while i > 0 && left > 0
            invariant
                i <= existing.len(),
                left <= 2,
                to == chunk@.last_block + 1,
                chunk@.first_block <= chunk@.last_block,
                views == types::chunk_views(existing@),
                first_neighbor_fault(chunk@, newest_below(views.take(i as int), to as int, left as nat))
                    == first_neighbor_fault(chunk@, newest_below(views, to as int, 2)),
            decreases i,
        {
            let n: &Chunk = &existing[i - 1];
            let ghost below = views.take(i as int);
            assert(below.last() == n@);
            assert(below.drop_last() =~= views.take(i - 1));
            if n.first_block() <= to {
                let ghost rest = newest_below(views.take(i - 1), to as int, (left - 1) as nat);
                assert((seq![n@] + rest).skip(1) =~= rest);
                match Tx::check_neighbor(chunk, n) {
                    Ok(_) => {},
                    Err(error) => {
                        return Err(error);
                    },
                }
                left -= 1;
            }
            i -= 1;
        }
        Ok(())
    }

    /// Whether `chunk` can stand next to the existing chunk `n`.
    fn check_neighbor(chunk: &Chunk, n: &Chunk) -> (result: Result<(), TxError>)
        requires
            chunk@.last_block < u64::MAX,
        ensures
            result is Err == neighbor_fault(chunk@, n@) is Some,
            result matches Err(e) ==> neighbor_fault(chunk@, n@) == Some(e@),
    {
        let end: BlockNumber = if n.last_block() <= chunk.last_block() {
            n.last_block()
        } else {
            chunk.last_block()
        };
        let start: BlockNumber = if n.first_block() >= chunk.first_block() {
            n.first_block()
        } else {
            chunk.first_block()
        };
        if end >= start {
            return Err(TxError::Overlap { chunk: chunk.clone(), existing: n.clone() });
        }
        if chunk.last_block() + 1 == n.first_block() && !(*chunk.last_block_hash() == *n.parent_block_hash()) {
            return Err(TxError::BrokenLink { chunk: chunk.clone(), neighbor: n.clone() });
        }
        if n.last_block() < u64::MAX && n.last_block() + 1 == chunk.first_block() && !(*n.last_block_hash()
            == *chunk.parent_block_hash()) {
            return Err(TxError::BrokenLink { chunk: chunk.clone(), neighbor: n.clone() });
        }
        Ok(())
    }
}

impl Tx {
    /// The label of a dataset, if there is one; `found` is what the store holds.
    pub fn find_label_for_update(found: Option<&Vec<u8>>) -> (result: Result<Option<DatasetLabel>, Corrupt>)
        ensures
            match found {
                Some(bytes) => match codec::label_in(bytes@) {
                    Some(label) => result matches Ok(Some(l)) && l@ == label,
                    None => result is Err,
                },
                None => result matches Ok(None),
            },
    {
        match found {
            Some(bytes) => match decode_label(bytes) {
                Ok(label) => Ok(Some(label)),
                Err(error) => Err(error),
            },
            None => Ok(None),
        }
    }

    /// The label of a dataset; `found` is what the store holds.
    pub fn get_label_for_update(dataset_id: &DatasetId, found: Option<&Vec<u8>>) -> (result: Result<
        DatasetLabel,
        TxError,
    >)
        ensures
            match found {
                Some(bytes) => match codec::label_in(bytes@) {
                    Some(label) => result matches Ok(l) && l@ == label,
                    None => result matches Err(e) && e@ == (TxErrorView::CorruptLabel { dataset: dataset_id@ }),
                },
                None => result matches Err(e) && e@ == (TxErrorView::DatasetNotFound { dataset: dataset_id@ }),
            },
    {
        match Tx::find_label_for_update(found) {
            Ok(Some(label)) => Ok(label),
            Ok(None) => Err(TxError::DatasetNotFound { dataset: dataset_id.clone() }),
            Err(_) => Err(TxError::CorruptLabel { dataset: dataset_id.clone() }),
        }
    }

    /// Whether the parent of the block `block_number` has the hash
    /// `expected_parent_hash`, as far as the bounds of the chunk tell.
    pub fn validate_parent_block_hash(
        chunk: &Chunk,
        block_number: BlockNumber,
        expected_parent_hash: &String,
    ) -> (result: Result<ParentHash, TxError>)
        ensures
            if chunk@.first_block == block_number {
                result matches Ok(p) && says_parent(p, chunk@.parent_block_hash, expected_parent_hash@)
            } else if chunk@.last_block + 1 == block_number {
                result matches Ok(p) && says_parent(p, chunk@.last_block_hash, expected_parent_hash@)
            } else if chunk@.first_block < block_number <= chunk@.last_block {
                match tx::blocks_table(chunk@) {
                    Some(table) => result matches Ok(ParentHash::InTable(t)) && t == table,
                    None => result matches Err(e) && e@ == (TxErrorView::NoBlocksTable { chunk: chunk@ }),
                }
            } else {
                result matches Err(e) && e@ == (TxErrorView::NoParentHash { chunk: chunk@, block_number })
            },
    {
        if chunk.first_block() == block_number {
            return Ok(Tx::compare_parent(chunk.parent_block_hash(), expected_parent_hash));
        }
        if chunk.last_block() < block_number && chunk.last_block() + 1 == block_number {
            return Ok(Tx::compare_parent(chunk.last_block_hash(), expected_parent_hash));
        }
        if !(chunk.first_block() < block_number && block_number <= chunk.last_block()) {
            return Err(TxError::NoParentHash { chunk: chunk.clone(), block_number });
        }
        match chunk.table("blocks") {
            Some(table) => Ok(ParentHash::InTable(table)),
            None => Err(TxError::NoBlocksTable { chunk: chunk.clone() }),
        }
    }

    /// Compares a known parent hash with the one expected.
    fn compare_parent(known: &String, expected: &String) -> (p: ParentHash)
        ensures
            says_parent(p, known@, expected@),
    {
        if *known == *expected {
            ParentHash::Matches
        } else {
            ParentHash::Differs(known.clone())
        }
    }

    /// Compares a parent hash read from a table with the one expected; the error is
    /// the one read.
    pub fn check_parent_hash(found: String, expected_parent_hash: &String) -> (result: Result<(), String>)
        ensures
            result is Ok == (found@ == expected_parent_hash@),
            result matches Err(e) ==> e@ == found@,
    {
        if found == *expected_parent_hash {
            Ok(())
        } else {
            Err(found)
        }
    }

    /// The table in which to look for the hash that `chunk` itself carries for a
    /// block.
    pub fn find_block_hash_in_chunk(chunk: &Chunk) -> (result: Result<TableId, TxError>)
        ensures
            match tx::blocks_table(chunk@) {
                Some(table) => result == Ok::<TableId, TxError>(table),
                None => result matches Err(e) && e@ == (TxErrorView::NoBlocksTable { chunk: chunk@ }),
            },
    {
        match chunk.table("blocks") {
            Some(table) => Ok(table),
            None => Err(TxError::NoBlocksTable { chunk: chunk.clone() }),
        }
    }

    /// The table in which to look for the hash that stored history carries for a
    /// block: none where no stored chunk reaches it, below the window or above the
    /// head.
    pub fn find_stored_block_hash(existing: &Vec<Chunk>, block_number: BlockNumber) -> (result: Result<
        Option<TableId>,
        TxError,
    >)
        ensures
            ({
                let reaching = selected(types::chunk_views(existing@), block_number, Some(block_number));
                if reaching.len() == 0 {
                    result == Ok::<Option<TableId>, TxError>(None)
                } else {
                    match tx::blocks_table(reaching[0]) {
                        Some(table) => result == Ok::<Option<TableId>, TxError>(Some(table)),
                        None => result matches Err(e) && e@ == (TxErrorView::NoBlocksTable { chunk: reaching[0] }),
                    }
                }
            }),
    {
        let ghost views = types::chunk_views(existing@);
        let mut i: usize = 0;
        assert(views.take(0) =~= Seq::<ChunkView>::empty());
        while i < existing.len()
            invariant
                i <= existing.len(),
                views == types::chunk_views(existing@),
                selected(views.take(i as int), block_number, Some(block_number)).len() == 0,
            decreases existing.len() - i,
        {
            let chunk: &Chunk = &existing[i];
            assert(views.take(i + 1).drop_last() =~= views.take(i as int));
            assert(views.take(i + 1).last() == chunk@);
            if chunk.last_block() >= block_number && chunk.first_block() <= block_number {
                proof {
                    lemma_selected_prefix(views, i + 1, block_number, Some(block_number));
                }
                return match Tx::find_block_hash_in_chunk(chunk) {
                    Ok(table) => Ok(Some(table)),
                    Err(error) => Err(error),
                };
            }
            i += 1;
        }
        assert(views.take(views.len() as int) =~= views);
        Ok(None)
    }

    /// The chunks among `existing`, oldest first, that reach into the heights from
    /// `from_block` to `to_block`.
    pub fn list_chunks(existing: &Vec<Chunk>, from_block: BlockNumber, to_block: Option<BlockNumber>) -> (chunks: Vec<
        Chunk,
    >)
        ensures
            types::chunk_views(chunks@) == selected(types::chunk_views(existing@), from_block, to_block),
    {
        let ghost views = types::chunk_views(existing@);
        let mut chunks: Vec<Chunk> = Vec::new();
        let mut i: usize = 0;
        assert(views.take(0) =~= Seq::<ChunkView>::empty());
        assert(types::chunk_views(chunks@) =~= selected(views.take(0), from_block, to_block));
        while i < existing.len()
            invariant
                i <= existing.len(),
                views == types::chunk_views(existing@),
                types::chunk_views(chunks@) == selected(views.take(i as int), from_block, to_block),
            decreases existing.len() - i,
        {
            let chunk: &Chunk = &existing[i];
            assert(views.take(i + 1).drop_last() =~= views.take(i as int));
            assert(views.take(i + 1).last() == chunk@);
            if Tx::chunk_reaches(chunk, from_block, to_block) {
                let ghost before = chunks@;
                chunks.push(chunk.clone());
                assert(types::chunk_views(chunks@) =~= types::chunk_views(before).push(chunk@));
            }
            i += 1;
        }
        assert(views.take(views.len() as int) =~= views);
        chunks
    }

    /// Whether a chunk reaches into the heights from `from_block` to `to_block`.
    pub fn chunk_reaches(chunk: &Chunk, from_block: BlockNumber, to_block: Option<BlockNumber>) -> (reaches: bool)
        ensures
            reaches == reaches_into(chunk@, from_block, to_block),
    {
        if chunk.last_block() < from_block {
            return false;
        }
        match to_block {
            Some(to) => chunk.first_block() <= to,
            None => true,
        }
    }
}

/// Whether `p` says that the parent hash is `known` where `expected` was expected.
pub open spec fn says_parent(p: ParentHash, known: Seq<char>, expected: Seq<char>) -> bool {
    if known == expected {
        p is Matches
    } else {
        p matches ParentHash::Differs(hash) && hash@ == known
    }
}

/// The chunks selected among the first ones come first among those selected.
pub proof fn lemma_selected_prefix(chunks: Seq<ChunkView>, n: int, from: BlockNumber, to: Option<BlockNumber>)
    requires
        0 <= n <= chunks.len(),
    ensures
        selected(chunks.take(n), from, to).len() <= selected(chunks, from, to).len(),
        forall|i: int|
            0 <= i < selected(chunks.take(n), from, to).len() ==> #[trigger] selected(chunks, from, to)[i] == selected(
                chunks.take(n),
                from,
                to,
            )[i],
    decreases chunks.len() - n,
{
    if n < chunks.len() {
        lemma_selected_prefix(chunks, n + 1, from, to);
        assert(chunks.take(n + 1).drop_last() =~= chunks.take(n));
        assert forall|i: int| 0 <= i < selected(chunks.take(n), from, to).len() implies #[trigger] selected(
            chunks,
            from,
            to,
        )[i] == selected(chunks.take(n), from, to)[i] by {
            assert(selected(chunks, from, to)[i] == selected(chunks.take(n + 1), from, to)[i]);
        }
    } else {
        assert(chunks.take(n) =~= chunks);
    }
}

} // verus!
