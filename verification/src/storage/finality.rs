//! Holding a replacement chunk to the finalized history.
//!
//! The blocks of the replacement are compared one by one with those stored, up to
//! the finalized head. Comparing the head alone would not do: hashes come from the
//! source, so a reproduced boundary says nothing about what lies below it. The
//! replacement streams past a [`PrefixCheck`], which pulls in the stored chunks one
//! at a time and holds the blocks of no more than one.
use crate::storage::tx::{self, Tx, TxError, TxErrorView};
use crate::text::{self, push_decimal};
use crate::types::{self, BlockNumber, BlockRef, BlockRefView, Chunk, ChunkView};
use vstd::prelude::*;

verus! {

/// A block written as `number#hash`.
pub open spec fn block_text(block: BlockRefView) -> Seq<char> {
    text::decimal(block.number as nat) + "#"@ + block.hash
}

/// What is said of a block that stored history does not have.
pub open spec fn not_stored_text(block: BlockRefView) -> Seq<char> {
    "block "@ + block_text(block) + " is not part of the stored finalized history"@
}

/// What is said of a block that differs from the stored one.
pub open spec fn mismatch_text(stored: BlockRefView, block: BlockRefView) -> Seq<char> {
    "expected finalized block "@ + block_text(stored) + ", got "@ + block_text(block)
}

/// What is said of a stored block that the replacement does not have.
pub open spec fn missing_text(stored: BlockRefView) -> Seq<char> {
    "finalized block "@ + block_text(stored) + " is missing from the replacement"@
}

/// Appends a block as `number#hash`.
fn push_block(out: &mut String, number: BlockNumber, hash: &str)
    ensures
        final(out)@ == old(out)@ + block_text(BlockRefView { number, hash: hash@ }),
{
    push_decimal(out, number);
    out.append("#");
    out.append(hash);
    assert(out@ =~= old(out)@ + block_text(BlockRefView { number, hash: hash@ }));
}

/// The blocks with heights from `from` to `to`.
pub open spec fn within(blocks: Seq<BlockRefView>, from: BlockNumber, to: BlockNumber) -> Seq<BlockRefView>
    decreases blocks.len(),
{
    if blocks.len() == 0 {
        Seq::empty()
    } else {
        let rest = within(blocks.drop_last(), from, to);
        if from <= blocks.last().number <= to {
            rest.push(blocks.last())
        } else {
            rest
        }
    }
}

/// The blocks with heights from `from` to `to`, out of all that a chunk lists.
pub fn read_block_hashes(blocks: &Vec<BlockRef>, from: BlockNumber, to: BlockNumber) -> (hashes: Vec<BlockRef>)
    ensures
        types::block_refs(hashes@) == within(types::block_refs(blocks@), from, to),
{
    let ghost views = types::block_refs(blocks@);
    let mut hashes: Vec<BlockRef> = Vec::new();
    let mut i: usize = 0;
    assert(views.take(0) =~= Seq::<BlockRefView>::empty());
    assert(types::block_refs(hashes@) =~= within(views.take(0), from, to));
    while i < blocks.len()
        invariant
            i <= blocks.len(),
            views == types::block_refs(blocks@),
            types::block_refs(hashes@) == within(views.take(i as int), from, to),
        decreases blocks.len() - i,
    {
        assert(views.take(i + 1).drop_last() =~= views.take(i as int));
        assert(views.take(i + 1).last() == blocks@[i as int]@);
        if from <= blocks[i].number && blocks[i].number <= to {
            let ghost before = hashes@;
            hashes.push(blocks[i].clone());
            assert(types::block_refs(hashes@) =~= types::block_refs(before).push(blocks@[i as int]@));
        }
        i += 1;
    }
    assert(views.take(views.len() as int) =~= views);
    hashes
}

/// A stored chunk with the blocks that its table lists.
#[derive(Debug)]
pub struct StoredBlocks {
    pub chunk: Chunk,
    pub blocks: Vec<BlockRef>,
}

/// What a [`StoredBlocks`] says.
pub struct StoredBlocksView {
    pub chunk: ChunkView,
    pub blocks: Seq<BlockRefView>,
}

impl View for StoredBlocks {
    type V = StoredBlocksView;

    open spec fn view(&self) -> StoredBlocksView {
        StoredBlocksView { chunk: self.chunk@, blocks: types::block_refs(self.blocks@) }
    }
}

/// What a list of stored chunks says.
pub open spec fn stored_views(stored: Seq<StoredBlocks>) -> Seq<StoredBlocksView> {
    stored.map_values(|s: StoredBlocks| s@)
}

/// What comes of comparing the blocks `fresh` with the stored blocks `waiting` and
/// then with those of the stored chunks that follow: the first divergence, if there
/// is one, or the first stored chunk reached that lists no blocks.
pub open spec fn prefix_verdict(
    waiting: Seq<BlockRefView>,
    fresh: Seq<BlockRefView>,
    stored: Seq<StoredBlocksView>,
    from: BlockNumber,
    up_to: BlockNumber,
) -> Result<Option<Seq<char>>, TxErrorView>
    decreases stored.len(), waiting.len(),
{
    if waiting.len() == 0 {
        if stored.len() == 0 {
            if fresh.len() == 0 {
                Ok(None)
            } else {
                Ok(Some(not_stored_text(fresh[0])))
            }
        } else if tx::blocks_table(stored[0].chunk) is None {
            Err(TxErrorView::NoBlocksTable { chunk: stored[0].chunk })
        } else {
            prefix_verdict(within(stored[0].blocks, from, up_to), fresh, stored.skip(1), from, up_to)
        }
    } else if fresh.len() == 0 {
        Ok(Some(missing_text(waiting[0])))
    } else if fresh[0] == waiting[0] {
        prefix_verdict(waiting.skip(1), fresh.skip(1), stored, from, up_to)
    } else {
        Ok(Some(mismatch_text(waiting[0], fresh[0])))
    }
}

/// What a [`PrefixCheck`] wants next.
#[derive(Clone, Copy, Debug, PartialEq, Eq, Structural)]
pub enum PrefixAsk {
    /// The next block of the replacement.
    Next,
    /// The blocks of the next stored chunk ([`PrefixCheck::load`]), or word that
    /// there is none ([`PrefixCheck::no_more_stored`]); and then the same again.
    LoadStored,
}

/// A comparison under way.
#[derive(Debug)]
pub struct PrefixCheck {
    from: BlockNumber,
    up_to: BlockNumber,
    stored: Vec<BlockRef>,
    pos: usize,
    exhausted: bool,
    divergence: Option<String>,
}

/// Where a comparison stands.
pub struct PrefixView {
    pub from: BlockNumber,
    pub up_to: BlockNumber,
    /// Stored blocks, of the last chunk loaded, that were not met yet.
    pub waiting: Seq<BlockRefView>,
    /// Whether there is no further stored chunk.
    pub exhausted: bool,
    pub divergence: Option<Seq<char>>,
}

impl View for PrefixCheck {
    type V = PrefixView;

    closed spec fn view(&self) -> PrefixView {
        PrefixView {
            from: self.from,
            up_to: self.up_to,
            waiting: types::block_refs(self.stored@.skip(self.pos as int)),
            exhausted: self.exhausted,
            divergence: types::text_view(self.divergence),
        }
    }
}

impl PrefixView {
    /// Whether `block` is to be compared at all: it is not above the finalized head,
    /// and nothing was found yet.
    pub open spec fn matters(self, block: BlockRefView) -> bool {
        self.divergence is None && block.number <= self.up_to
    }

    /// What is wanted after `block`.
    pub open spec fn ask(self, block: BlockRefView) -> PrefixAsk {
        if self.matters(block) && self.waiting.len() == 0 && !self.exhausted {
            PrefixAsk::LoadStored
        } else {
            PrefixAsk::Next
        }
    }

    /// After `block` was met.
    pub open spec fn met(self, block: BlockRefView) -> PrefixView {
        if !self.matters(block) || self.ask(block) == PrefixAsk::LoadStored {
            self
        } else if self.waiting.len() == 0 {
            PrefixView { divergence: Some(not_stored_text(block)), ..self }
        } else if self.waiting[0] == block {
            PrefixView { waiting: self.waiting.skip(1), ..self }
        } else {
            PrefixView { divergence: Some(mismatch_text(self.waiting[0], block)), ..self }
        }
    }
}

impl PrefixCheck {
    #[verifier::type_invariant]
    closed spec fn pos_in_range(self) -> bool {
        self.pos <= self.stored@.len()
    }

    /// A comparison over the heights from `from` to `up_to`.
    pub fn new(from: BlockNumber, up_to: BlockNumber) -> (check: Self)
        ensures
            check@ == (PrefixView { from, up_to, waiting: Seq::empty(), exhausted: false, divergence: None }),
    {
        let check: PrefixCheck = PrefixCheck {
            from,
            up_to,
            stored: Vec::new(),
            pos: 0,
            exhausted: false,
            divergence: None,
        };
        assert(check@.waiting =~= Seq::empty());
        check
    }

    /// Meets the next block of the replacement.
    pub fn offer(&mut self, number: BlockNumber, hash: &String) -> (ask: PrefixAsk)
        ensures
            ask == old(self)@.ask(BlockRefView { number, hash: hash@ }),
            final(self)@ == old(self)@.met(BlockRefView { number, hash: hash@ }),
    {
        proof {
            use_type_invariant(&*self);
        }
        if self.divergence.is_some() || number > self.up_to {
            return PrefixAsk::Next;
        }
        if self.pos >= self.stored.len() {
            if !self.exhausted {
                return PrefixAsk::LoadStored;
            }
            let mut said: String = "block ".to_owned();
            push_block(&mut said, number, hash.as_str());
            said.append(" is not part of the stored finalized history");
            self.divergence = Some(said);
            return PrefixAsk::Next;
        }
        let expected: &BlockRef = &self.stored[self.pos];
        assert(self@.waiting[0] == expected@);
        if expected.number == number && expected.hash == *hash {
            assert(self.stored@.skip(self.pos as int).skip(1) =~= self.stored@.skip(self.pos + 1));
            assert(types::block_refs(self.stored@.skip(self.pos as int)).skip(1) =~= types::block_refs(
                self.stored@.skip(self.pos as int).skip(1),
            ));
            self.pos = self.pos + 1;
        } else {
            let mut said: String = "expected finalized block ".to_owned();
            push_block(&mut said, expected.number, expected.hash.as_str());
            said.append(", got ");
            push_block(&mut said, number, hash.as_str());
            self.divergence = Some(said);
        }
        PrefixAsk::Next
    }

    /// Takes in the blocks of the next stored chunk; those loaded before have all
    /// been met.
    pub fn load(&mut self, blocks: &Vec<BlockRef>)
        ensures
            final(self)@ == (PrefixView {
                waiting: within(types::block_refs(blocks@), old(self)@.from, old(self)@.up_to),
                ..old(self)@
            }),
    {
        let stored: Vec<BlockRef> = read_block_hashes(blocks, self.from, self.up_to);
        let PrefixCheck { from, up_to, exhausted, .. } = *self;
        let mut divergence: Option<String> = None;
        if self.divergence.is_some() {
            divergence = self.divergence.clone();
        }
        assert(stored@.skip(0) =~= stored@);
        *self = PrefixCheck { from, up_to, stored, pos: 0, exhausted, divergence };
    }

    /// Learns that there is no further stored chunk.
    pub fn no_more_stored(&mut self)
        ensures
            final(self)@ == (PrefixView { exhausted: true, ..old(self)@ }),
    {
        proof {
            use_type_invariant(&*self);
        }
        self.exhausted = true;
    }

    /// Ends the comparison, once the replacement has no further block: the first
    /// divergence, if there is one. Nothing is returned where a stored chunk is
    /// wanted first.
    pub fn finish(&self) -> (end: Option<Result<(), String>>)
        ensures
            match self@.divergence {
                Some(said) => end matches Some(Err(e)) && e@ == said,
                None => if self@.waiting.len() > 0 {
                    end matches Some(Err(e)) && e@ == missing_text(self@.waiting[0])
                } else if self@.exhausted {
                    end matches Some(Ok(_))
                } else {
                    end is None
                },
            },
    {
        proof {
            use_type_invariant(self);
        }
        match &self.divergence {
            Some(said) => {
                return Some(Err(said.clone()));
            },
            None => {},
        }
        if self.pos < self.stored.len() {
            let expected: &BlockRef = &self.stored[self.pos];
            assert(self@.waiting[0] == expected@);
            let mut said: String = "finalized block ".to_owned();
            push_block(&mut said, expected.number, expected.hash.as_str());
            said.append(" is missing from the replacement");
            return Some(Err(said));
        }
        if self.exhausted {
            Some(Ok(()))
        } else {
            None
        }
    }
}

/// The first block is kept or dropped on its own.
proof fn lemma_within_first(blocks: Seq<BlockRefView>, from: BlockNumber, to: BlockNumber)
    requires
        blocks.len() > 0,
    ensures
        within(blocks, from, to) == if from <= blocks[0].number <= to {
            seq![blocks[0]] + within(blocks.skip(1), from, to)
        } else {
            within(blocks.skip(1), from, to)
        },
    decreases blocks.len(),
{
    if blocks.len() == 1 {
        reveal_with_fuel(within, 2);
        assert(blocks.last() == blocks[0]);
        assert(blocks.drop_last() =~= Seq::empty());
        assert(blocks.skip(1) =~= Seq::empty());
        assert(within(blocks, from, to) =~= if from <= blocks[0].number <= to {
            seq![blocks[0]]
        } else {
            Seq::empty()
        });
    } else {
        lemma_within_first(blocks.drop_last(), from, to);
        assert(blocks.drop_last().skip(1) =~= blocks.skip(1).drop_last());
        assert(within(blocks, from, to) =~= if from <= blocks[0].number <= to {
            seq![blocks[0]] + within(blocks.skip(1), from, to)
        } else {
            within(blocks.skip(1), from, to)
        });
    }
}

impl Tx {
    /// Compares the blocks `fresh` of `chunk` with stored history, block for block,
    /// up to the height `up_to`, and describes the first divergence. `stored` are
    /// the stored chunks that reach into those heights, oldest first.
    pub fn validate_finalized_prefix(
        chunk: &Chunk,
        up_to: BlockNumber,
        fresh: &Vec<BlockRef>,
        stored: &Vec<StoredBlocks>,
    ) -> (result: Result<Result<(), String>, TxError>)
        ensures
            ({
                let verdict = if tx::blocks_table(chunk@) is None {
                    Err(TxErrorView::NoBlocksTable { chunk: chunk@ })
                } else {
                    prefix_verdict(
                        Seq::empty(),
                        within(types::block_refs(fresh@), 0, up_to),
                        stored_views(stored@),
                        chunk@.first_block,
                        up_to,
                    )
                };
                match verdict {
                    Ok(None) => result matches Ok(Ok(_)),
                    Ok(Some(said)) => result matches Ok(Err(e)) && e@ == said,
                    Err(error) => result matches Err(e) && e@ == error,
                }
            }),
    {
        if chunk.table("blocks").is_none() {
            return Err(TxError::NoBlocksTable { chunk: chunk.clone() });
        }
        let from: BlockNumber = chunk.first_block();
        let ghost blocks = types::block_refs(fresh@);
        let ghost chunks = stored_views(stored@);
        let ghost verdict = prefix_verdict(Seq::empty(), within(blocks, 0, up_to), chunks, from, up_to);
        let mut check: PrefixCheck = PrefixCheck::new(from, up_to);
        let mut loaded: usize = 0;
        let mut i: usize = 0;
        assert(blocks.skip(0) =~= blocks);
        assert(chunks.skip(0) =~= chunks);
        while i < fresh.len()
            invariant
                i <= fresh.len(),
                loaded <= stored.len(),
                blocks == types::block_refs(fresh@),
                chunks == stored_views(stored@),
                check@.from == from,
                check@.up_to == up_to,
                from == chunk@.first_block,
                tx::blocks_table(chunk@) is Some,
                verdict == prefix_verdict(Seq::empty(), within(blocks, 0, up_to), chunks, from, up_to),
                stands(check@, within(blocks.skip(i as int), 0, up_to), chunks.skip(loaded as int), verdict),
            decreases fresh.len() - i, stored.len() - loaded, (if check@.exhausted { 0int } else { 1 }),
        {
            let ghost here = blocks.skip(i as int);
            proof {
                lemma_within_first(here, 0, up_to);
                assert(here.skip(1) =~= blocks.skip(i + 1));
                assert(here[0] == fresh@[i as int]@);
                let kept = within(here.skip(1), 0, up_to);
                assert((seq![here[0]] + kept).skip(1) =~= kept);
            }
            match check.offer(fresh[i].number, &fresh[i].hash) {
                PrefixAsk::Next => {
                    i += 1;
                },
                PrefixAsk::LoadStored => {
                    if loaded < stored.len() {
                        assert(chunks.skip(loaded as int)[0] == stored@[loaded as int]@);
                        assert(chunks.skip(loaded as int).skip(1) =~= chunks.skip(loaded + 1));
                        if stored[loaded].chunk.table("blocks").is_none() {
                            return Err(TxError::NoBlocksTable { chunk: stored[loaded].chunk.clone() });
                        }
                        check.load(&stored[loaded].blocks);
                        loaded += 1;
                    } else {
                        check.no_more_stored();
                    }
                },
            }
        }
        assert(blocks.skip(i as int) =~= Seq::empty());
        loop
            invariant
                loaded <= stored.len(),
                chunks == stored_views(stored@),
                check@.from == from,
                check@.up_to == up_to,
                from == chunk@.first_block,
                tx::blocks_table(chunk@) is Some,
                blocks == types::block_refs(fresh@),
                verdict == prefix_verdict(Seq::empty(), within(blocks, 0, up_to), chunks, from, up_to),
                stands(check@, Seq::empty(), chunks.skip(loaded as int), verdict),
            decreases stored.len() - loaded, (if check@.exhausted { 0int } else { 1 }),
        {
            match check.finish() {
                Some(end) => {
                    return Ok(end);
                },
                None => {},
            }
            if loaded < stored.len() {
                assert(chunks.skip(loaded as int)[0] == stored@[loaded as int]@);
                assert(chunks.skip(loaded as int).skip(1) =~= chunks.skip(loaded + 1));
                if stored[loaded].chunk.table("blocks").is_none() {
                    return Err(TxError::NoBlocksTable { chunk: stored[loaded].chunk.clone() });
                }
                check.load(&stored[loaded].blocks);
                loaded += 1;
            } else {
                check.no_more_stored();
            }
        }
    }
}

/// Whether a comparison that stands so, with those blocks and stored chunks to come,
/// will end in `verdict`.
spec fn stands(
    check: PrefixView,
    fresh: Seq<BlockRefView>,
    stored: Seq<StoredBlocksView>,
    verdict: Result<Option<Seq<char>>, TxErrorView>,
) -> bool {
    &&& check.exhausted ==> stored.len() == 0
    &&& match check.divergence {
        Some(said) => verdict == Ok::<Option<Seq<char>>, TxErrorView>(Some(said)),
        None => verdict == prefix_verdict(check.waiting, fresh, stored, check.from, check.up_to),
    }
}

} // verus!
