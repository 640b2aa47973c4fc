//! What holds of a stream of blocks whatever its endpoints answer.
use crate::data_source::metrics::IngestMetricsView;
use crate::data_source::standard::{
    self, DataEvent, EndpointStateView, EndpointStep, EndpointView, ForkDecision, Polled, Position,
    SourceSetView, Standing,
};
use crate::types::BlockRefView;
use vstd::prelude::*;

verus! {

/// The first fault costs nothing, every further one costs a pause, pauses never get
/// shorter as faults go on, and none is longer than ten seconds.
pub proof fn law_pauses_grow_and_are_bounded(fewer: nat, more: nat)
    requires
        fewer <= more,
    ensures
        standard::backoff_pause(fewer) <= standard::backoff_pause(more) <= 10_000,
        standard::backoff_pause(fewer) == 0 <==> fewer == 0,
{
}

/// Faults of transport and blocks that do not link are counted apart: neither
/// clears or climbs the other's ladder.
pub proof fn law_ladders_are_independent(endpoint: EndpointView)
    ensures
        endpoint.after_error().reject_counter == endpoint.reject_counter,
        endpoint.after_error().error_counter == endpoint.error_counter + 1,
        endpoint.after_reject().error_counter == endpoint.error_counter,
        endpoint.after_reject().reject_counter == endpoint.reject_counter + 1,
{
}

/// Only a block that moves the chain forward clears an endpoint's own strikes.
pub proof fn law_only_progress_clears_strikes<B>(at: Standing, polled: Polled<B>)
    requires
        polled.fits_state(at.endpoint.state),
    ensures
        standard::answered(at, polled).endpoint.reject_counter < at.endpoint.reject_counter
            ==> standard::step_of(at, polled) matches EndpointStep::Event(DataEvent::Block { .. }),
{
}

/// An endpoint that keeps sending blocks which do not link cannot be asked again
/// and again without pause: from the second such block on it is paused.
pub proof fn law_repeated_rejects_pause<B>(at: Standing, polled: Polled<B>)
    requires
        polled.fits_state(at.endpoint.state),
        polled matches Polled::Block(block) && block.number >= at.source.position.first_block
            && at.source.position.parent_block_hash is Some && at.source.position.parent_block_hash
            != Some(block.parent_hash@),
    ensures
        standard::answered(at, polled).endpoint.reject_counter == at.endpoint.reject_counter + 1,
        standard::answered(at, polled).source == at.source,
        at.endpoint.reject_counter == 0 ==> standard::answered(at, polled).endpoint.state is Ready,
        at.endpoint.reject_counter >= 1 ==> standard::answered(at, polled).endpoint.state is Backoff,
{
}

/// The position moves only when a block is reported; then the block was at or above
/// it and linked to it, and the position is right on top of that block.
pub proof fn law_position_follows_reported_blocks<B>(at: Standing, polled: Polled<B>)
    requires
        polled.acceptable(at.endpoint),
    ensures
        match standard::step_of(at, polled) {
            EndpointStep::Event(DataEvent::Block { block, .. }) => {
                &&& block.number >= at.source.position.first_block
                &&& at.source.position.parent_block_hash is None || at.source.position.parent_block_hash
                    == Some(block.parent_hash@)
                &&& standard::answered(at, polled).source.position == (Position {
                    first_block: (block.number + 1) as u64,
                    parent_block_hash: Some(block.hash@),
                })
                &&& standard::answered(at, polled).source.position.first_block > at.source.position.first_block
            },
            _ => standard::answered(at, polled).source.position == at.source.position,
        },
{
}

/// Blocks reported one after the other form a chain: where `first` was reported from
/// `one`, and the position has not been set from outside or moved since, a block
/// reported from `two` has `first` as its parent and lies above it.
pub proof fn law_reported_blocks_form_a_chain<B>(one: Standing, first: Polled<B>, two: Standing, second: Polled<B>)
    requires
        first.acceptable(one.endpoint),
        second.acceptable(two.endpoint),
        two.source.position == standard::answered(one, first).source.position,
    ensures
        standard::step_of(one, first) matches EndpointStep::Event(DataEvent::Block { block: parent, .. }) ==> (
        standard::step_of(two, second) matches EndpointStep::Event(DataEvent::Block { block: child, .. })
            ==> child.parent_hash@ == parent.hash@ && child.number > parent.number),
{
}

/// Finality never goes back while the stream follows its chain, and never reaches
/// the position.
pub proof fn law_finality_never_recedes<B>(at: Standing, polled: Polled<B>)
    requires
        polled.acceptable(at.endpoint),
        at.source.finalized_head matches Some(head) ==> head.number < at.source.position.first_block,
    ensures
        ({
            let next = standard::answered(at, polled).source;
            &&& at.source.finalized_head matches Some(known) ==> next.finalized_head matches Some(head)
                && known.number <= head.number
            &&& next.finalized_head matches Some(head) ==> head.number < next.position.first_block
            &&& next.max_seen_finalized_block >= at.source.max_seen_finalized_block
        }),
{
}

/// A final block is reported only if it lies above the finality known before, and
/// what is recorded for it is a block of this chain: the one named, or the block
/// right below the position.
pub proof fn law_reported_finality_is_news<B>(at: Standing, polled: Polled<B>)
    requires
        polled.acceptable(at.endpoint),
    ensures
        standard::step_of(at, polled) matches EndpointStep::Event(DataEvent::FinalizedHead(head)) ==> {
            &&& at.source.finalized_head matches Some(known) ==> known.number < head.number
            &&& standard::answered(at, polled).source.finalized_head == Some(
                if head.number < at.source.position.first_block {
                    head@
                } else {
                    BlockRefView {
                        number: (at.source.position.first_block - 1) as u64,
                        hash: at.source.position.parent_block_hash.unwrap(),
                    }
                },
            )
        },
{
}

/// After a block was reported no other endpoint is paused or carries a strike, and
/// the one that delivered it keeps its stream.
pub proof fn law_a_reported_block_relieves_the_others<B>(
    set: SourceSetView,
    counts: IngestMetricsView,
    polled: Polled<B>,
    other: int,
)
    requires
        set.cursor < set.endpoints.len(),
        polled.acceptable(set.endpoints[set.cursor as int]),
        standard::step_of(set.standing(counts), polled) matches EndpointStep::Event(DataEvent::Block { .. }),
        0 <= other < set.endpoints.len(),
    ensures
        ({
            let next = set.with_standing(
                standard::answered(set.standing(counts), polled),
            ).others_relieved().endpoints[other];
            &&& next.reject_counter == 0
            &&& other != set.cursor ==> !(next.state is Backoff)
            &&& other == set.cursor ==> next.state == set.endpoints[other].state && next.state is Stream
        }),
{
}

/// A position set from outside starts afresh: no endpoint is paused, on a fork or
/// carries a strike, no finality is known and no decision is under way.
pub proof fn law_a_reposition_starts_afresh(set: SourceSetView, position: Position, i: int)
    requires
        0 <= i < set.endpoints.len(),
    ensures
        ({
            let next = set.repositioned(position);
            &&& next.state.position == position
            &&& next.state.finalized_head is None
            &&& next.state.fork_consensus_started_at is None
            &&& !next.state.fork_consensus_timeout
            &&& next.endpoints[i].state is Ready
            &&& next.endpoints[i].reject_counter == 0
            &&& next.endpoints[i].last_committed_block is None
            &&& next.endpoints[i].error_counter == set.endpoints[i].error_counter
        }),
{
}

/// More than half of the endpoints settle a fork at once; a minority settles it at
/// once only if all the others are paused; no fork signal settles nothing.
pub proof fn law_who_settles_a_fork(set: SourceSetView)
    ensures
        2 * standard::fork_count(set.endpoints) > set.endpoints.len() <==> set.decision() == Some(
            ForkDecision::Majority,
        ),
        set.decision() is Some ==> 0 < standard::fork_count(set.endpoints),
        set.decision() == Some(ForkDecision::AllActive) ==> standard::fork_count(set.endpoints)
            == standard::active_count(set.endpoints),
        set.decision() != Some(ForkDecision::Timeout),
        set.decision() is None && 0 < standard::fork_count(set.endpoints) ==> standard::fork_count(set.endpoints)
            < standard::active_count(set.endpoints),
{
    lemma_forks_are_active(set.endpoints);
}

/// An endpoint on a fork is not paused.
proof fn lemma_forks_are_active(endpoints: Seq<EndpointView>)
    ensures
        standard::fork_count(endpoints) <= standard::active_count(endpoints) <= endpoints.len(),
    decreases endpoints.len(),
{
    if endpoints.len() > 0 {
        lemma_forks_are_active(endpoints.drop_last());
    }
}

/// After a branch was given up no endpoint is on a fork, so nothing is settled
/// twice.
pub proof fn law_giving_up_ends_the_fork(set: SourceSetView)
    ensures
        standard::fork_count(set.given_up().endpoints) == 0,
        set.given_up().decision() is None,
        set.given_up().state.position == set.state.position,
        set.given_up().state.finalized_head == set.state.finalized_head,
{
    lemma_no_forks(set.given_up().endpoints);
}

/// Endpoints that are ready are on no fork.
proof fn lemma_no_forks(endpoints: Seq<EndpointView>)
    requires
        forall|i: int| 0 <= i < endpoints.len() ==> (#[trigger] endpoints[i]).state is Ready,
    ensures
        standard::fork_count(endpoints) == 0,
    decreases endpoints.len(),
{
    if endpoints.len() > 0 {
        let init = endpoints.drop_last();
        assert forall|i: int| 0 <= i < init.len() implies (#[trigger] init[i]).state is Ready by {
            assert(init[i] == endpoints[i]);
        }
        lemma_no_forks(init);
        assert(endpoints.last() == endpoints[endpoints.len() - 1]);
    }
}

/// The blocks reported for a fork are the longest list that an endpoint has named,
/// and no endpoint before that one has named one as long.
pub proof fn law_the_longest_list_is_reported(endpoints: Seq<EndpointView>)
    ensures
        forall|i: int|
            0 <= i < endpoints.len() && (#[trigger] endpoints[i]).state is Fork ==> endpoints[i].state->prev_blocks.len()
                <= standard::longest_hints(endpoints).len(),
        standard::longest_hints(endpoints).len() > 0 ==> exists|i: int|
            0 <= i < endpoints.len() && is_first_longest(endpoints, i),
    decreases endpoints.len(),
{
    if endpoints.len() > 0 {
        let init = endpoints.drop_last();
        law_the_longest_list_is_reported(init);
        let last = endpoints.len() - 1;
        let best = standard::longest_hints(init);
        assert forall|i: int| 0 <= i < endpoints.len() && (#[trigger] endpoints[i]).state is Fork implies
            endpoints[i].state->prev_blocks.len() <= standard::longest_hints(endpoints).len() by {
            if i < last {
                assert(init[i] == endpoints[i]);
            }
        }
        if standard::longest_hints(endpoints).len() > 0 {
            if endpoints.last().state is Fork && endpoints.last().state->prev_blocks.len() > best.len() {
                assert forall|j: int| 0 <= j < last && (#[trigger] endpoints[j]).state is Fork implies
                    endpoints[j].state->prev_blocks.len() < standard::longest_hints(endpoints).len() by {
                    assert(init[j] == endpoints[j]);
                }
                assert(is_first_longest(endpoints, last));
            } else {
                let i = choose|i: int| 0 <= i < init.len() && is_first_longest(init, i);
                assert forall|j: int| 0 <= j < i && (#[trigger] endpoints[j]).state is Fork implies
                    endpoints[j].state->prev_blocks.len() < standard::longest_hints(endpoints).len() by {
                    assert(init[j] == endpoints[j]);
                }
                assert(init[i] == endpoints[i]);
                assert(is_first_longest(endpoints, i));
            }
        }
    }
}

/// Whether the endpoint at `i` is the first to name the list that is reported.
pub open spec fn is_first_longest(endpoints: Seq<EndpointView>, i: int) -> bool {
    &&& endpoints[i].state matches EndpointStateView::Fork { prev_blocks, .. } && prev_blocks
        == standard::longest_hints(endpoints)
    &&& forall|j: int|
        0 <= j < i && (#[trigger] endpoints[j]).state is Fork ==> endpoints[j].state->prev_blocks.len()
            < standard::longest_hints(endpoints).len()
}

} // verus!
