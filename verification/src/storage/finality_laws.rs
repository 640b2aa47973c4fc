//! How a replacement is held to the finalized history, block by block.
use crate::storage::finality::{self, PrefixView, StoredBlocksView};
use crate::storage::staging_laws;
use crate::storage::tx::TxErrorView;
use crate::text;
use crate::types::{BlockNumber, BlockRefView};
use vstd::prelude::*;

verus! {

/// The blocks within a range of heights are just those whose height is at least its
/// first and at most its last, in their order.
pub proof fn law_blocks_within_a_range(blocks: Seq<BlockRefView>, from: BlockNumber, to: BlockNumber)
    ensures
        finality::within(blocks, from, to) == blocks.filter(|b: BlockRefView| b.number >= from && b.number <= to),
    decreases blocks.len(),
{
    reveal(Seq::filter);
    if blocks.len() > 0 {
        law_blocks_within_a_range(blocks.drop_last(), from, to);
    }
}

/// The blocks of the stored chunks whose heights are at least `from` and at most
/// `up_to`, chunk by chunk.
pub open spec fn history(stored: Seq<StoredBlocksView>, from: BlockNumber, up_to: BlockNumber) -> Seq<BlockRefView>
    decreases stored.len(),
{
    if stored.len() == 0 {
        Seq::empty()
    } else {
        stored[0].blocks.filter(|b: BlockRefView| b.number >= from && b.number <= up_to) + history(
            stored.skip(1),
            from,
            up_to,
        )
    }
}

/// A block written out: its height in decimal, a number sign and its hash.
pub open spec fn written(block: BlockRefView) -> Seq<char> {
    text::decimal(block.number as nat) + seq!['#'] + block.hash
}

/// Where the replacement and history have the first `same` blocks in common and part
/// there, the verdict tells how: nothing if both end there; the stored block as
/// missing if only the replacement ends; the new one as not stored if only history
/// ends; both of them if they differ. All stored chunks list their blocks.
pub proof fn law_the_first_divergence_is_told(
    waiting: Seq<BlockRefView>,
    fresh: Seq<BlockRefView>,
    stored: Seq<StoredBlocksView>,
    from: BlockNumber,
    up_to: BlockNumber,
    same: int,
)
    requires
        forall|i: int| 0 <= i < stored.len() ==> staging_laws::has_table((#[trigger] stored[i]).chunk, "blocks"@),
        ({
            let old = waiting + history(stored, from, up_to);
            &&& 0 <= same <= fresh.len()
            &&& same <= old.len()
            &&& forall|i: int| 0 <= i < same ==> #[trigger] fresh[i] == old[i]
            &&& same < fresh.len() && same < old.len() ==> fresh[same] != old[same]
        }),
    ensures
        ({
            let old = waiting + history(stored, from, up_to);
            finality::prefix_verdict(waiting, fresh, stored, from, up_to) == Ok::<Option<Seq<char>>, TxErrorView>(
                if same == fresh.len() && same == old.len() {
                    None
                } else if same == fresh.len() {
                    Some("finalized block "@ + written(old[same]) + " is missing from the replacement"@)
                } else if same == old.len() {
                    Some("block "@ + written(fresh[same]) + " is not part of the stored finalized history"@)
                } else {
                    Some("expected finalized block "@ + written(old[same]) + ", got "@ + written(fresh[same]))
                },
            )
        }),
    decreases stored.len(), waiting.len(),
{
    let old = waiting + history(stored, from, up_to);
    if waiting.len() == 0 {
        assert(old =~= history(stored, from, up_to));
        if stored.len() == 0 {
            if fresh.len() > 0 {
                lemma_written(fresh[0]);
            }
        } else {
            let next = finality::within(stored[0].blocks, from, up_to);
            let rest = stored.skip(1);
            law_blocks_within_a_range(stored[0].blocks, from, up_to);
            assert forall|i: int| 0 <= i < rest.len() implies staging_laws::has_table(
                (#[trigger] rest[i]).chunk,
                "blocks"@,
            ) by {
                assert(rest[i] == stored[i + 1]);
            }
            assert(staging_laws::has_table(stored[0].chunk, "blocks"@));
            assert(next + history(rest, from, up_to) =~= old);
            law_the_first_divergence_is_told(next, fresh, rest, from, up_to, same);
        }
    } else {
        assert(old[0] == waiting[0]);
        lemma_written(waiting[0]);
        if fresh.len() > 0 {
            lemma_written(fresh[0]);
            if fresh[0] == waiting[0] {
                assert(same > 0);
                let shorter = waiting.skip(1) + history(stored, from, up_to);
                assert(shorter =~= old.skip(1));
                assert forall|i: int| 0 <= i < same - 1 implies #[trigger] fresh.skip(1)[i] == shorter[i] by {
                    assert(fresh[i + 1] == old[i + 1]);
                }
                law_the_first_divergence_is_told(waiting.skip(1), fresh.skip(1), stored, from, up_to, same - 1);
            }
        }
    }
}

proof fn lemma_written(block: BlockRefView)
    ensures
        finality::block_text(block) == written(block),
{
    reveal_strlit("#");
    assert("#"@ =~= seq!['#']);
}

/// The comparison fails for want of blocks only on account of a stored chunk that has
/// no table of them.
pub proof fn law_only_a_chunk_without_blocks_fails(
    waiting: Seq<BlockRefView>,
    fresh: Seq<BlockRefView>,
    stored: Seq<StoredBlocksView>,
    from: BlockNumber,
    up_to: BlockNumber,
)
    requires
        finality::prefix_verdict(waiting, fresh, stored, from, up_to) is Err,
    ensures
        exists|i: int|
            0 <= i < stored.len() && !staging_laws::has_table((#[trigger] stored[i]).chunk, "blocks"@)
                && finality::prefix_verdict(waiting, fresh, stored, from, up_to)->Err_0 == (
            TxErrorView::NoBlocksTable { chunk: stored[i].chunk }) && forall|j: int|
                0 <= j < i ==> staging_laws::has_table((#[trigger] stored[j]).chunk, "blocks"@),
    decreases stored.len(), waiting.len(),
{
    if waiting.len() == 0 {
        if !staging_laws::has_table(stored[0].chunk, "blocks"@) {
            assert(stored[0] == stored[0]);
        } else {
            let next = finality::within(stored[0].blocks, from, up_to);
            let rest = stored.skip(1);
            law_only_a_chunk_without_blocks_fails(next, fresh, rest, from, up_to);
            let k = choose|k: int|
                0 <= k < rest.len() && !staging_laws::has_table((#[trigger] rest[k]).chunk, "blocks"@)
                    && finality::prefix_verdict(next, fresh, rest, from, up_to)->Err_0 == (
                TxErrorView::NoBlocksTable { chunk: rest[k].chunk }) && forall|j: int|
                    0 <= j < k ==> staging_laws::has_table((#[trigger] rest[j]).chunk, "blocks"@);
            assert(rest[k] == stored[k + 1]);
            assert forall|j: int| 0 <= j < k + 1 implies staging_laws::has_table(
                (#[trigger] stored[j]).chunk,
                "blocks"@,
            ) by {
                if j > 0 {
                    assert(rest[j - 1] == stored[j]);
                }
            }
        }
    } else {
        law_only_a_chunk_without_blocks_fails(waiting.skip(1), fresh.skip(1), stored, from, up_to);
    }
}

/// A block above the finalized head, or after a divergence, is passed over. Any other
/// is met by the next stored block: an equal one is done with, another one is a
/// divergence. Where no stored block is waiting, the next chunk is asked for first;
/// and where there is no further chunk, the block is a divergence.
pub proof fn law_a_block_meets_the_next_stored_one(check: PrefixView, block: BlockRefView)
    ensures
        ({
            let ask = check.ask(block);
            let next = check.met(block);
            let over = check.divergence is Some || block.number > check.up_to;
            &&& over ==> ask is Next && next == check
            &&& !over && check.waiting.len() == 0 && !check.exhausted ==> ask is LoadStored && next == check
            &&& !over && check.waiting.len() == 0 && check.exhausted ==> ask is Next && next == (PrefixView {
                divergence: Some("block "@ + written(block) + " is not part of the stored finalized history"@),
                ..check
            })
            &&& !over && check.waiting.len() > 0 && check.waiting[0] == block ==> ask is Next && next == (PrefixView {
                waiting: check.waiting.skip(1),
                ..check
            })
            &&& !over && check.waiting.len() > 0 && check.waiting[0] != block ==> ask is Next && next == (PrefixView {
                divergence: Some(
                    "expected finalized block "@ + written(check.waiting[0]) + ", got "@ + written(block),
                ),
                ..check
            })
        }),
{
    lemma_written(block);
    if check.waiting.len() > 0 {
        lemma_written(check.waiting[0]);
    }
}

/// What is said of a stored block that the replacement does not have.
pub proof fn law_a_missing_block_is_told(stored: BlockRefView)
    ensures
        finality::missing_text(stored) == "finalized block "@ + written(stored) + " is missing from the replacement"@,
{
    lemma_written(stored);
}

} // verus!
