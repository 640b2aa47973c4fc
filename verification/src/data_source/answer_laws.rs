//! What each answer of an endpoint does to the stream, to the endpoint and to the
//! counts.
use crate::data_source::metrics::{self, IngestCounters, IngestFamily, IngestMetricsView};
use crate::data_source::standard::{
    self, BlockStreamRequest, DataEvent, DataSourceState, DataSourceView, Endpoint, EndpointAsk, EndpointState,
    EndpointStateView, EndpointStep, EndpointView, ForkDecision, PollAsk, Polled, Position, SourceBlock, SourceSetView,
    Standing,
};
use crate::duration::Duration;
use crate::prom::{self, LabelKey, Labels};
use crate::types::{BlockNumber, BlockRef, BlockRefView};
use vstd::prelude::*;

verus! {

/// A block at or above the position whose parent is the block below it, or any where
/// that one is not known, is reported. It is final exactly if its height is at most
/// the one up to which the stream is final, and then it is the newest final block.
/// The position comes to lie on top of it; the endpoint loses its strikes and faults;
/// nothing is counted.
pub proof fn law_a_linking_block_is_reported<B>(at: Standing, block: SourceBlock<B>, final_up_to: BlockNumber)
    requires
        at.endpoint.state == (EndpointStateView::Stream { finalized_head: final_up_to }),
        at.source.position.first_block <= block.number < u64::MAX,
        at.source.position.parent_block_hash matches Some(parent) ==> parent == block.parent_hash@,
    ensures
        standard::step_of(at, Polled::Block(block)) == EndpointStep::Event(
            DataEvent::Block { block, is_final: block.number <= final_up_to },
        ),
        standard::answered(at, Polled::Block(block)).source == (DataSourceView {
            finalized_head: if block.number <= final_up_to {
                Some(BlockRefView { number: block.number, hash: block.hash@ })
            } else {
                at.source.finalized_head
            },
            position: Position { first_block: (block.number + 1) as u64, parent_block_hash: Some(block.hash@) },
            position_is_canonical: true,
            max_seen_finalized_block: at.source.max_seen_finalized_block,
            fork_consensus_timeout: false,
            fork_consensus_started_at: None,
        }),
        standard::answered(at, Polled::Block(block)).endpoint == (EndpointView {
            source: at.endpoint.source,
            state: at.endpoint.state,
            error_counter: 0,
            reject_counter: 0,
            last_committed_block: Some(block.number),
        }),
        standard::answered(at, Polled::Block(block)).counts == at.counts,
{
}

/// A block below the position is passed over, whatever its parent: it only shows that
/// the endpoint works.
pub proof fn law_an_old_block_is_passed_over<B>(at: Standing, block: SourceBlock<B>)
    requires
        block.number < at.source.position.first_block,
    ensures
        standard::step_of(at, Polled::Block(block)) is Continue,
        standard::answered(at, Polled::Block(block)) == (Standing {
            source: at.source,
            endpoint: EndpointView { error_counter: 0, ..at.endpoint },
            counts: at.counts,
        }),
{
}

/// A block at or above the position whose parent is another one than the block below
/// is not reported and moves nothing. It is a strike against the endpoint, is counted
/// under its name, and costs the pause of the strikes before it.
pub proof fn law_a_block_of_another_branch_is_a_strike<B>(at: Standing, block: SourceBlock<B>, parent: Seq<char>)
    requires
        block.number >= at.source.position.first_block,
        at.source.position.parent_block_hash == Some(parent),
        parent != block.parent_hash@,
    ensures
        standard::step_of(at, Polled::Block(block)) is Continue,
        ({
            let next = standard::answered(at, Polled::Block(block));
            &&& next.source == at.source
            &&& next.endpoint.source == at.endpoint.source
            &&& next.endpoint.error_counter == 0
            &&& next.endpoint.reject_counter == at.endpoint.reject_counter + 1
            &&& next.endpoint.last_committed_block == at.endpoint.last_committed_block
            &&& pauses_after(next.endpoint.state, at.endpoint.reject_counter)
            &&& next.counts == (IngestMetricsView {
                linkage_rejects: prom::counted(
                    at.counts.linkage_rejects,
                    seq![("source"@, at.endpoint.source), ("reason"@, "parent_hash_mismatch"@)],
                ),
                ..at.counts
            })
        }),
{
    law_pauses_by_number(at.endpoint.reject_counter);
}

/// Whether `state` is that of an endpoint that had `before` faults of the same kind
/// in a row before this one: after the first fault it is ready, and further ones cost
/// a tenth, a fifth and half a second, then one, two, five and ten seconds, and ten
/// from there on.
pub open spec fn pauses_after(state: EndpointStateView, before: nat) -> bool {
    &&& before == 0 ==> state is Ready
    &&& before == 1 ==> state == (EndpointStateView::Backoff { pause_ms: 100 })
    &&& before == 2 ==> state == (EndpointStateView::Backoff { pause_ms: 200 })
    &&& before == 3 ==> state == (EndpointStateView::Backoff { pause_ms: 500 })
    &&& before == 4 ==> state == (EndpointStateView::Backoff { pause_ms: 1_000 })
    &&& before == 5 ==> state == (EndpointStateView::Backoff { pause_ms: 2_000 })
    &&& before == 6 ==> state == (EndpointStateView::Backoff { pause_ms: 5_000 })
    &&& before >= 7 ==> state == (EndpointStateView::Backoff { pause_ms: 10_000 })
}

/// The pauses: none after the first fault, then each at least twice as long as
/// the one before, up to ten seconds from the eighth on.
pub proof fn law_pauses_by_number(before: nat)
    ensures
        standard::backoff_pause(0) == 0,
        standard::backoff_pause(1) == 100,
        standard::backoff_pause(2) == 200,
        standard::backoff_pause(3) == 500,
        standard::backoff_pause(4) == 1_000,
        standard::backoff_pause(5) == 2_000,
        standard::backoff_pause(6) == 5_000,
        before >= 7 ==> standard::backoff_pause(before) == 10_000,
        0 < before < 7 ==> standard::backoff_pause(before + 1) >= 2 * standard::backoff_pause(before),
{
}

/// A fault of transport or parsing moves nothing and reports nothing. It is counted
/// under the endpoint's name and its kind, and costs the pause of the faults before
/// it; strikes are left as they are.
pub proof fn law_a_fault_pauses_its_endpoint<B>(at: Standing, kind: String)
    ensures
        standard::step_of(at, Polled::<B>::Failed { kind }) is Continue,
        ({
            let next = standard::answered(at, Polled::<B>::Failed { kind });
            &&& next.source == at.source
            &&& next.endpoint.source == at.endpoint.source
            &&& next.endpoint.error_counter == at.endpoint.error_counter + 1
            &&& next.endpoint.reject_counter == at.endpoint.reject_counter
            &&& next.endpoint.last_committed_block == at.endpoint.last_committed_block
            &&& pauses_after(next.endpoint.state, at.endpoint.error_counter)
            &&& next.counts == (IngestMetricsView {
                source_errors: prom::counted(
                    at.counts.source_errors,
                    seq![("source"@, at.endpoint.source), ("kind"@, kind@)],
                ),
                ..at.counts
            })
        }),
{
    law_pauses_by_number(at.endpoint.error_counter);
}

/// A stream that says nothing of finality starts with no block final.
pub proof fn law_a_stream_without_finality<B>(at: Standing)
    ensures
        standard::step_of(at, Polled::<B>::Streaming { finalized_head: None }) is Continue,
        standard::answered(at, Polled::<B>::Streaming { finalized_head: None }) == (Standing {
            source: at.source,
            endpoint: EndpointView {
                state: EndpointStateView::Stream { finalized_head: 0 },
                error_counter: 0,
                ..at.endpoint
            },
            counts: at.counts,
        }),
{
}

/// A stream that names a final block is final up to it, and the highest height ever
/// named is kept. The block is reported exactly if something stands below the
/// position, it lies above the newest final block, and it lies below the position or
/// the position was reached by blocks. What is then the newest final block is the one
/// named, or the one below the position if that is lower.
pub proof fn law_named_finality<B>(at: Standing, head: BlockRef)
    ensures
        ({
            let next = standard::answered(at, Polled::<B>::Streaming { finalized_head: Some(head) });
            let below_position = head.number < at.source.position.first_block;
            let news = {
                &&& at.source.position.first_block > 0
                &&& at.source.position.parent_block_hash is Some
                &&& at.source.finalized_head is None || at.source.finalized_head.unwrap().number < head.number
                &&& below_position || at.source.position_is_canonical
            };
            &&& standard::step_of(at, Polled::<B>::Streaming { finalized_head: Some(head) }) == if news {
                EndpointStep::<B>::Event(DataEvent::FinalizedHead(head))
            } else {
                EndpointStep::<B>::Continue
            }
            &&& !news ==> next.source.finalized_head == at.source.finalized_head
            &&& news && below_position ==> next.source.finalized_head == Some(
                BlockRefView { number: head.number, hash: head.hash@ },
            )
            &&& news && !below_position ==> next.source.finalized_head == Some(
                BlockRefView {
                    number: (at.source.position.first_block - 1) as u64,
                    hash: at.source.position.parent_block_hash.unwrap(),
                },
            )
            &&& next.source.max_seen_finalized_block >= head.number
            &&& next.source.max_seen_finalized_block >= at.source.max_seen_finalized_block
            &&& next.source.max_seen_finalized_block == head.number || next.source.max_seen_finalized_block
                == at.source.max_seen_finalized_block
            &&& next.source.position == at.source.position
            &&& next.source.position_is_canonical == at.source.position_is_canonical
            &&& next.source.fork_consensus_timeout == at.source.fork_consensus_timeout
            &&& next.source.fork_consensus_started_at == at.source.fork_consensus_started_at
            &&& next.endpoint == (EndpointView {
                state: EndpointStateView::Stream { finalized_head: head.number },
                error_counter: 0,
                ..at.endpoint
            })
            &&& next.counts == at.counts
        }),
{
}

/// A fork signal is kept with the request it answers and the blocks it names, all of
/// them and in their order. The first one at a position starts the clock of the
/// decision. It is counted under the endpoint's name: as above the tip if the last
/// block named lies below the one under the requested height, as at the tip
/// otherwise.
pub proof fn law_a_fork_signal_is_kept<B>(at: Standing, req: Position, prev_blocks: Vec<BlockRef>, now: Duration)
    requires
        at.endpoint.state == (EndpointStateView::Req { req }),
    ensures
        standard::step_of(at, Polled::<B>::Forked { prev_blocks, now }) is Continue,
        ({
            let next = standard::answered(at, Polled::<B>::Forked { prev_blocks, now });
            let above_tip = prev_blocks@.len() > 0 && prev_blocks@[prev_blocks@.len() - 1].number + 1 < req.first_block;
            &&& next.source == (DataSourceView {
                fork_consensus_started_at: if at.source.fork_consensus_started_at is None {
                    Some(now@)
                } else {
                    at.source.fork_consensus_started_at
                },
                ..at.source
            })
            &&& next.endpoint.state matches EndpointStateView::Fork { req: kept, prev_blocks: named } && kept == req
                && named.len() == prev_blocks@.len() && forall|i: int|
                0 <= i < named.len() ==> (#[trigger] named[i]).number == prev_blocks@[i].number && named[i].hash
                    == prev_blocks@[i].hash@
            &&& next.endpoint == (EndpointView { state: next.endpoint.state, error_counter: 0, ..at.endpoint })
            &&& next.counts == (IngestMetricsView {
                fork_signals: prom::counted(
                    at.counts.fork_signals,
                    seq![
                        ("source"@, at.endpoint.source),
                        (
                            "standing"@,
                            if above_tip {
                                "above_tip"@
                            } else {
                                "at_tip"@
                            },
                        ),
                    ],
                ),
                ..at.counts
            })
        }),
{
}

/// The end of a stream makes its endpoint ready. The end of the chain may have been
/// reached exactly if this endpoint committed the block right below the position, and
/// no endpoint has ever named a final block above that one.
pub proof fn law_the_end_of_a_stream<B>(at: Standing, below: BlockNumber)
    requires
        at.source.position.first_block == 0 && below == 0 || below + 1 == at.source.position.first_block,
    ensures
        standard::step_of(at, Polled::<B>::Ended) == if at.endpoint.last_committed_block == Some(below)
            && at.source.max_seen_finalized_block <= below {
            EndpointStep::<B>::Event(DataEvent::MaybeOnHead)
        } else {
            EndpointStep::<B>::Continue
        },
        standard::answered(at, Polled::<B>::Ended) == (Standing {
            source: at.source,
            endpoint: EndpointView { state: EndpointStateView::Ready, error_counter: 0, ..at.endpoint },
            counts: at.counts,
        }),
{
}

/// An endpoint that has not answered is passed over, with nothing changed; one whose
/// pause is over is ready again, with its faults and strikes still counted.
pub proof fn law_time_passes<B>(at: Standing)
    ensures
        standard::step_of(at, Polled::<B>::Pending) is Pending,
        standard::answered(at, Polled::<B>::Pending) == at,
        standard::step_of(at, Polled::<B>::Rested) is Continue,
        standard::answered(at, Polled::<B>::Rested) == (Standing {
            endpoint: EndpointView { state: EndpointStateView::Ready, ..at.endpoint },
            ..at
        }),
{
}

/// Which answers can come: those to a request while it is open, blocks and the end
/// while there is a stream, a rest while there is a pause; nothing at all of an
/// endpoint that was not asked. Of those, only a block without a successor and a
/// count without a next value have to be kept away.
pub proof fn law_what_can_be_answered<B>(endpoint: EndpointView, polled: Polled<B>)
    ensures
        endpoint.state is Req ==> (polled.fits_state(endpoint.state) <==> polled is Pending || polled is Streaming
            || polled is Forked || polled is Failed),
        endpoint.state is Stream ==> (polled.fits_state(endpoint.state) <==> polled is Pending || polled is Block
            || polled is Ended || polled is Failed),
        endpoint.state is Backoff ==> (polled.fits_state(endpoint.state) <==> polled is Pending || polled is Rested),
        endpoint.state is Ready || endpoint.state is Fork ==> !polled.fits_state(endpoint.state),
        polled.fits_state(endpoint.state) && endpoint.error_counter < usize::MAX && endpoint.reject_counter
            < usize::MAX && (polled matches Polled::Block(block) ==> block.number < u64::MAX) ==> polled.acceptable(
            endpoint,
        ),
{
}

/// A round goes on to the first endpoint, from the cursor on, that does not contest
/// the current position, and to no other. A ready endpoint, and one whose fork signal
/// was about another position, is sent a request for the position; any other is asked
/// about what it is doing. If there is none, a decision is due, and nothing changes.
pub proof fn law_the_first_open_endpoint_is_asked<B>(set: SourceSetView, ask: PollAsk<B>)
    requires
        set.cursor <= set.endpoints.len(),
    ensures
        ({
            let next = set.scanned();
            let i = next.cursor as int;
            &&& set.cursor <= i <= set.endpoints.len()
            &&& forall|j: int|
                set.cursor <= j < i ==> ((#[trigger] set.endpoints[j]).state matches EndpointStateView::Fork { req, .. }
                    && req == set.state.position)
            &&& next.state == set.state
            &&& next.endpoints.len() == set.endpoints.len()
            &&& forall|j: int| 0 <= j < set.endpoints.len() && j != i ==> #[trigger] next.endpoints[j] == set.endpoints[j]
            &&& i == set.endpoints.len() ==> (set.scan_asks(ask) <==> ask is Decide)
            &&& i < set.endpoints.len() ==> {
                &&& !(set.endpoints[i].state matches EndpointStateView::Fork { req, .. } && req == set.state.position)
                &&& next.endpoints[i] == if set.endpoints[i].state is Ready || set.endpoints[i].state is Fork {
                    EndpointView {
                        state: EndpointStateView::Req { req: set.state.position },
                        ..set.endpoints[i]
                    }
                } else {
                    set.endpoints[i]
                }
                &&& set.scan_asks(ask) ==> (ask matches PollAsk::Endpoint { index, ask: question } && index == i
                    && match set.endpoints[i].state {
                    EndpointStateView::Req { .. } => question is PollRequest,
                    EndpointStateView::Stream { .. } => question is PollBlocks,
                    EndpointStateView::Backoff { pause_ms: pause } => question == (EndpointAsk::PollBackoff {
                        pause_ms: pause,
                    }),
                    _ => question matches EndpointAsk::Request(req) && req.first_block
                        == set.state.position.first_block && (req.parent_block_hash is None
                        <==> set.state.position.parent_block_hash is None) && (req.parent_block_hash matches Some(hash)
                        ==> set.state.position.parent_block_hash == Some(hash@)),
                })
            }
        }),
{
    lemma_next_open(set.state, set.endpoints, set.cursor);
}

proof fn lemma_next_open(source: DataSourceView, endpoints: Seq<EndpointView>, from: nat)
    requires
        from <= endpoints.len(),
    ensures
        ({
            let i = source.next_open(endpoints, from);
            &&& from <= i <= endpoints.len()
            &&& forall|j: int|
                from <= j < i ==> ((#[trigger] endpoints[j]).state matches EndpointStateView::Fork { req, .. } && req
                    == source.position)
            &&& i < endpoints.len() ==> !(endpoints[i as int].state matches EndpointStateView::Fork { req, .. } && req
                == source.position)
        }),
    decreases endpoints.len() - from,
{
    if from < endpoints.len() {
        lemma_next_open(source, endpoints, from + 1);
    }
}

/// An answer reaches the endpoint at the cursor and the shared state, and no other
/// endpoint; a round begins at the cursor it is given.
pub proof fn law_an_answer_is_about_one_endpoint(set: SourceSetView, counts: IngestMetricsView, next: Standing, i: int)
    requires
        set.cursor < set.endpoints.len(),
        0 <= i < set.endpoints.len(),
    ensures
        set.standing(counts) == (Standing {
            source: set.state,
            endpoint: set.endpoints[set.cursor as int],
            counts,
        }),
        set.with_standing(next).endpoints.len() == set.endpoints.len(),
        set.with_standing(next).endpoints[i] == if i == set.cursor {
            next.endpoint
        } else {
            set.endpoints[i]
        },
        set.with_standing(next).state == next.source,
        set.with_standing(next).cursor == set.cursor,
        set.at(i as nat) == (SourceSetView { endpoints: set.endpoints, state: set.state, cursor: i as nat }),
{
}

/// Once the endpoint at the cursor has moved the position, no other endpoint carries
/// a strike, and one that was paused is ready. Nothing else changes: not what the
/// others were doing, nor their faults, nor what they committed, nor the endpoint at
/// the cursor.
pub proof fn law_progress_relieves_the_others(set: SourceSetView, i: int)
    requires
        0 <= i < set.endpoints.len(),
    ensures
        set.others_relieved().state == set.state,
        set.others_relieved().cursor == set.cursor,
        set.others_relieved().endpoints.len() == set.endpoints.len(),
        i == set.cursor ==> set.others_relieved().endpoints[i] == set.endpoints[i],
        i != set.cursor && set.endpoints[i].state is Backoff ==> set.others_relieved().endpoints[i] == (EndpointView {
            state: EndpointStateView::Ready,
            reject_counter: 0,
            ..set.endpoints[i]
        }),
        i != set.cursor && !(set.endpoints[i].state is Backoff) ==> set.others_relieved().endpoints[i] == (
        EndpointView { reject_counter: 0, ..set.endpoints[i] }),
{
}

/// Giving up a branch makes every endpoint ready and ends the decision; the position,
/// the finality and the records of the endpoints stay, and the next round begins with
/// the first endpoint.
pub proof fn law_giving_up_asks_anew(set: SourceSetView, i: int)
    requires
        0 <= i < set.endpoints.len(),
    ensures
        set.given_up().endpoints.len() == set.endpoints.len(),
        set.given_up().endpoints[i] == (EndpointView { state: EndpointStateView::Ready, ..set.endpoints[i] }),
        set.given_up().cursor == 0,
        set.given_up().state == (DataSourceView {
            fork_consensus_timeout: false,
            fork_consensus_started_at: None,
            ..set.state
        }),
{
}

/// A position set from outside takes the place of the old one; only what was ever
/// seen of finality, and the faults of the endpoints, are remembered.
pub proof fn law_a_position_is_set(set: SourceSetView, position: Position, i: int)
    requires
        0 <= i < set.endpoints.len(),
    ensures
        set.repositioned(position).endpoints.len() == set.endpoints.len(),
        set.repositioned(position).endpoints[i] == (EndpointView {
            source: set.endpoints[i].source,
            state: EndpointStateView::Ready,
            error_counter: set.endpoints[i].error_counter,
            reject_counter: 0,
            last_committed_block: None,
        }),
        set.repositioned(position).cursor == 0,
        set.repositioned(position).state == (DataSourceView {
            finalized_head: None,
            position,
            position_is_canonical: false,
            max_seen_finalized_block: set.state.max_seen_finalized_block,
            fork_consensus_timeout: false,
            fork_consensus_started_at: None,
        }),
{
}

/// The number of endpoints counted as being on a fork is that of the endpoints whose
/// state is a fork, and the number counted as active that of those whose state is not
/// a pause: waiting, streaming and contesting endpoints alike.
pub proof fn law_endpoints_are_counted_by_state(endpoints: Seq<EndpointView>)
    ensures
        standard::fork_count(endpoints) == endpoints.filter(|e: EndpointView| e.state is Fork).len(),
        standard::active_count(endpoints) == endpoints.filter(|e: EndpointView| !(e.state is Backoff)).len(),
    decreases endpoints.len(),
{
    reveal(Seq::filter);
    if endpoints.len() > 0 {
        law_endpoints_are_counted_by_state(endpoints.drop_last());
    }
}

/// A fork is settled at once by more than half of the endpoints, or, short of that,
/// by at least one where every other endpoint is paused or contests the position too.
/// An endpoint that is ready, has been asked or streams blocks holds up all but a
/// majority; where none contests the position nothing is settled.
pub proof fn law_what_settles_a_fork(set: SourceSetView)
    ensures
        ({
            let forks = set.endpoints.filter(|e: EndpointView| e.state is Fork).len();
            let contested = exists|i: int| 0 <= i < set.endpoints.len() && (#[trigger] set.endpoints[i]).state is Fork;
            let unanimous = forall|i: int|
                0 <= i < set.endpoints.len() ==> (#[trigger] set.endpoints[i]).state is Fork || set.endpoints[i].state is Backoff;
            &&& contested <==> standard::fork_count(set.endpoints) > 0
            &&& set.decision() == Some(ForkDecision::Majority) <==> 2 * forks > set.endpoints.len()
            &&& set.decision() == Some(ForkDecision::AllActive) <==> 2 * forks <= set.endpoints.len() && contested
                && unanimous
            &&& set.decision() is None <==> 2 * forks <= set.endpoints.len() && !(contested && unanimous)
        }),
{
    law_endpoints_are_counted_by_state(set.endpoints);
    lemma_counts_compared(set.endpoints);
}

proof fn lemma_counts_compared(endpoints: Seq<EndpointView>)
    ensures
        standard::fork_count(endpoints) <= standard::active_count(endpoints) <= endpoints.len(),
        standard::fork_count(endpoints) > 0 <==> exists|i: int|
            0 <= i < endpoints.len() && (#[trigger] endpoints[i]).state is Fork,
        standard::fork_count(endpoints) == standard::active_count(endpoints) <==> forall|i: int|
            0 <= i < endpoints.len() ==> (#[trigger] endpoints[i]).state is Fork || endpoints[i].state is Backoff,
    decreases endpoints.len(),
{
    if endpoints.len() > 0 {
        let init = endpoints.drop_last();
        let last = endpoints.len() - 1;
        lemma_counts_compared(init);
        assert(endpoints.last() == endpoints[last]);
        assert forall|i: int| 0 <= i < last implies #[trigger] endpoints[i] == init[i] by {}
        if standard::fork_count(endpoints) > 0 && !(endpoints[last].state is Fork) {
            let i = choose|i: int| 0 <= i < init.len() && (#[trigger] init[i]).state is Fork;
            assert(endpoints[i].state is Fork);
        }
        if standard::fork_count(endpoints) == 0 {
            assert forall|i: int| 0 <= i < endpoints.len() implies !((#[trigger] endpoints[i]).state is Fork) by {
                if i < last {
                    assert(!(init[i].state is Fork));
                }
            }
        }
        if standard::fork_count(endpoints) == standard::active_count(endpoints) {
            assert forall|i: int| 0 <= i < endpoints.len() implies (#[trigger] endpoints[i]).state is Fork
                || endpoints[i].state is Backoff by {
                if i < last {
                    assert(init[i].state is Fork || init[i].state is Backoff);
                }
            }
        } else if endpoints[last].state is Fork || endpoints[last].state is Backoff {
            let i = choose|i: int|
                0 <= i < init.len() && !((#[trigger] init[i]).state is Fork || init[i].state is Backoff);
            assert(!(endpoints[i].state is Fork || endpoints[i].state is Backoff));
        }
    }
}

/// A decision is taken down under its name with the time since the first fork signal,
/// none if the clock was set back; nothing else is counted.
pub proof fn law_a_decision_is_timed(
    set: SourceSetView,
    counts: IngestMetricsView,
    decision: ForkDecision,
    started: nat,
    now: nat,
)
    requires
        set.state.fork_consensus_started_at == Some(started),
    ensures
        ({
            let next = set.decided_counts(counts, decision, now);
            let n = counts.fork_consensus.len();
            &&& next.fork_consensus.len() == n + 1
            &&& next.fork_consensus.take(n as int) == counts.fork_consensus
            &&& next.fork_consensus[n as int].0 == seq![
                (
                    "decision"@,
                    match decision {
                        ForkDecision::Majority => "majority"@,
                        ForkDecision::AllActive => "all_active"@,
                        ForkDecision::Timeout => "timeout"@,
                    },
                ),
            ]
            &&& now >= started ==> started + next.fork_consensus[n as int].1 == now
            &&& now < started ==> next.fork_consensus[n as int].1 == 0
            &&& next.source_errors == counts.source_errors
            &&& next.fork_signals == counts.fork_signals
            &&& next.linkage_rejects == counts.linkage_rejects
            &&& next.counters == counts.counters
        }),
{
    let next = set.decided_counts(counts, decision, now);
    assert(next.fork_consensus.take(counts.fork_consensus.len() as int) =~= counts.fork_consensus);
}

/// An event counts once for its own label set, from the largest count round to zero,
/// and for no other.
pub proof fn law_an_event_counts_once(counts: Map<LabelKey, u64>, key: LabelKey, other: LabelKey)
    ensures
        prom::counted(counts, key).contains_key(key),
        prom::count_of(prom::counted(counts, key), key) == if prom::count_of(counts, key) == u64::MAX {
            0
        } else {
            prom::count_of(counts, key) + 1
        },
        other != key ==> prom::count_of(prom::counted(counts, key), other) == prom::count_of(counts, other)
            && prom::counted(counts, key).contains_key(other) == counts.contains_key(other),
        counts.contains_key(key) ==> prom::count_of(counts, key) == counts[key],
        !counts.contains_key(key) ==> prom::count_of(counts, key) == 0,
{
}

/// What a request, an endpoint and the shared state say is what they hold.
pub proof fn law_the_stream_is_told_as_it_is(
    req: BlockStreamRequest,
    endpoint: Endpoint,
    endpoints: Seq<Endpoint>,
    state: DataSourceState,
    i: int,
)
    ensures
        req@.first_block == req.first_block,
        req@.parent_block_hash is Some <==> req.parent_block_hash is Some,
        req.parent_block_hash matches Some(hash) ==> req@.parent_block_hash == Some(hash@),
        endpoint@.source == endpoint.source@,
        endpoint@.error_counter == endpoint.error_counter,
        endpoint@.reject_counter == endpoint.reject_counter,
        endpoint@.last_committed_block == endpoint.last_committed_block,
        endpoint@.state is Ready <==> endpoint.state is Ready,
        endpoint.state matches EndpointState::Req { req: asked } ==> endpoint@.state == (EndpointStateView::Req {
            req: asked@,
        }),
        endpoint.state matches EndpointState::Stream { finalized_head } ==> endpoint@.state == (
        EndpointStateView::Stream { finalized_head }),
        endpoint.state matches EndpointState::Backoff { pause_ms } ==> endpoint@.state == (
        EndpointStateView::Backoff { pause_ms }),
        endpoint.state matches EndpointState::Fork { req: asked, prev_blocks } ==> (endpoint@.state
            matches EndpointStateView::Fork { req: told, prev_blocks: named } && told == asked@ && named.len()
            == prev_blocks@.len() && forall|k: int|
            0 <= k < named.len() ==> #[trigger] named[k] == (BlockRefView {
                number: prev_blocks@[k].number,
                hash: prev_blocks@[k].hash@,
            })),
        standard::endpoint_views(endpoints).len() == endpoints.len(),
        0 <= i < endpoints.len() ==> standard::endpoint_views(endpoints)[i] == endpoints[i]@,
        state@.position == state.position@,
        state@.position_is_canonical == state.position_is_canonical,
        state@.max_seen_finalized_block == state.max_seen_finalized_block,
        state@.fork_consensus_timeout == state.fork_consensus_timeout,
        state@.fork_consensus_started_at is Some <==> state.fork_consensus_started_at is Some,
        state.fork_consensus_started_at matches Some(at) ==> state@.fork_consensus_started_at == Some(at@),
        state@.finalized_head is Some <==> state.finalized_head is Some,
        state.finalized_head matches Some(head) ==> state@.finalized_head == Some(
            BlockRefView { number: head.number, hash: head.hash@ },
        ),
{
}

/// What holds of every stream: requests and fork signals are about the position or
/// one below it; where an endpoint contests the position the clock of the decision
/// runs; the endpoints that were passed over in this round and are on a fork contest
/// the position; and the newest final block lies below it.
pub proof fn law_what_every_stream_keeps(set: SourceSetView, i: int)
    requires
        set.consistent(),
        0 <= i < set.endpoints.len(),
    ensures
        set.cursor <= set.endpoints.len(),
        set.endpoints[i].state matches EndpointStateView::Req { req } ==> req.first_block
            <= set.state.position.first_block,
        set.endpoints[i].state matches EndpointStateView::Fork { req, .. } ==> req.first_block
            <= set.state.position.first_block,
        set.endpoints[i].state matches EndpointStateView::Fork { req, .. } ==> req == set.state.position
            ==> set.state.fork_consensus_started_at is Some,
        set.endpoints[i].state matches EndpointStateView::Fork { req, .. } ==> i < set.cursor ==> req
            == set.state.position,
        set.state.finalized_head matches Some(head) ==> head.number < set.state.position.first_block,
{
}

/// Each family of counters is its own, and observations are told one by one.
pub proof fn law_counters_are_told_apart(counters: IngestCounters, list: Seq<(Labels, Duration)>, i: int)
    ensures
        counters.of(IngestFamily::SourceErrors) == counters.source_errors,
        counters.of(IngestFamily::ForkSignals) == counters.fork_signals,
        counters.of(IngestFamily::LinkageRejects) == counters.linkage_rejects,
        metrics::observation_views(list).len() == list.len(),
        0 <= i < list.len() ==> metrics::observation_views(list)[i] == (prom::label_key(list[i].0@), list[i].1@),
{
}

/// The label sets under which ingestion counts, each label with its own value.
pub proof fn law_under_which_labels_ingestion_counts(source: Seq<char>, value: Seq<char>)
    ensures
        metrics::source_error_key(source, value) == seq![("source"@, source), ("kind"@, value)],
        metrics::linkage_reject_key(source, value) == seq![("source"@, source), ("reason"@, value)],
        metrics::fork_signal_key(source, value) == seq![("source"@, source), ("standing"@, value)],
        metrics::fork_consensus_key(value) == seq![("decision"@, value)],
{
}

} // verus!
