//! One block stream out of several redundant endpoints.
//!
//! Every endpoint is asked for blocks from the same position of the chain. The
//! first one to deliver a block that extends the chain moves the position
//! forward. An endpoint that fails, or that keeps sending blocks which do not
//! extend the chain, is paused for longer and longer. When enough endpoints say
//! that the position lies on an abandoned branch, the branch is given up.
//!
//! Talking to the endpoints is left to the caller: it is told what to ask of
//! which endpoint ([`PollAsk`]) and hands back what came of it ([`Polled`]).
use crate::data_source::metrics::{self, IngestMetrics, IngestMetricsView};
use crate::data_source::metrics::{
    record_ingest_fork_consensus_duration, record_ingest_fork_signal, record_ingest_linkage_reject,
    record_ingest_source_error,
};
use crate::duration::Duration;
use crate::prom;
use crate::types::{self, BlockNumber, BlockRef, BlockRefView};
use vstd::prelude::*;

verus! {

/// A request for the blocks from `first_block` on, on top of a known parent.
#[derive(Debug, PartialEq, Eq)]
pub struct BlockStreamRequest {
    pub first_block: BlockNumber,
    pub parent_block_hash: Option<String>,
}

/// A place in the chain: the next height and, where it is known, the hash of the
/// block below.
pub struct Position {
    pub first_block: BlockNumber,
    pub parent_block_hash: Option<Seq<char>>,
}

impl View for BlockStreamRequest {
    type V = Position;

    open spec fn view(&self) -> Position {
        Position {
            first_block: self.first_block,
            parent_block_hash: types::text_view(self.parent_block_hash),
        }
    }
}

impl Clone for BlockStreamRequest {
    fn clone(&self) -> (copy: Self)
        ensures
            copy == *self,
    {
        let parent_block_hash: Option<String> = match &self.parent_block_hash {
            Some(hash) => Some(hash.clone()),
            None => None,
        };
        BlockStreamRequest { first_block: self.first_block, parent_block_hash }
    }
}

impl BlockStreamRequest {
    /// Whether two requests ask for the same place.
    pub fn same(&self, other: &Self) -> (same: bool)
        ensures
            same == (self@ == other@),
    {
        if self.first_block != other.first_block {
            return false;
        }
        match (&self.parent_block_hash, &other.parent_block_hash) {
            (Some(a), Some(b)) => *a == *b,
            (None, None) => true,
            _ => false,
        }
    }

    /// Replaces the parent hash.
    pub fn set_parent_block_hash(&mut self, hash: Option<&str>)
        ensures
            final(self)@ == (Position {
                parent_block_hash: match hash {
                    Some(h) => Some(h@),
                    None => None,
                },
                ..old(self)@
            }),
    {
        self.parent_block_hash = match hash {
            Some(h) => Some(h.to_owned()),
            None => None,
        };
    }
}

/// What an endpoint is doing.
#[derive(Debug)]
pub enum EndpointState {
    /// Nothing: it can be asked.
    Ready,
    /// It was asked `req` and has not answered yet.
    Req { req: BlockStreamRequest },
    /// It streams blocks; those up to `finalized_head` are final.
    Stream { finalized_head: BlockNumber },
    /// It answered `req` by naming the blocks it holds instead, oldest first.
    Fork { req: BlockStreamRequest, prev_blocks: Vec<BlockRef> },
    /// It is left alone for `pause_ms` milliseconds.
    Backoff { pause_ms: u64 },
}

/// What an [`EndpointState`] says.
pub enum EndpointStateView {
    Ready,
    Req { req: Position },
    Stream { finalized_head: BlockNumber },
    Fork { req: Position, prev_blocks: Seq<BlockRefView> },
    Backoff { pause_ms: u64 },
}

impl View for EndpointState {
    type V = EndpointStateView;

    open spec fn view(&self) -> EndpointStateView {
        match self {
            EndpointState::Ready => EndpointStateView::Ready,
            EndpointState::Req { req } => EndpointStateView::Req { req: req@ },
            EndpointState::Stream { finalized_head } => EndpointStateView::Stream {
                finalized_head: *finalized_head,
            },
            EndpointState::Fork { req, prev_blocks } => EndpointStateView::Fork {
                req: req@,
                prev_blocks: types::block_refs(prev_blocks@),
            },
            EndpointState::Backoff { pause_ms } => EndpointStateView::Backoff { pause_ms: *pause_ms },
        }
    }
}

/// One endpoint and its record.
#[derive(Debug)]
pub struct Endpoint {
    /// The name under which the endpoint is counted.
    pub source: String,
    pub state: EndpointState,
    /// Consecutive faults of transport or parsing.
    pub error_counter: usize,
    /// Consecutive blocks, at the current position, that did not extend the chain.
    /// Only real progress or a new position clears it; a mere answer does not.
    pub reject_counter: usize,
    pub last_committed_block: Option<BlockNumber>,
}

/// What an [`Endpoint`] says.
pub struct EndpointView {
    pub source: Seq<char>,
    pub state: EndpointStateView,
    pub error_counter: nat,
    pub reject_counter: nat,
    pub last_committed_block: Option<BlockNumber>,
}

impl View for Endpoint {
    type V = EndpointView;

    open spec fn view(&self) -> EndpointView {
        EndpointView {
            source: self.source@,
            state: self.state@,
            error_counter: self.error_counter as nat,
            reject_counter: self.reject_counter as nat,
            last_committed_block: self.last_committed_block,
        }
    }
}

/// What a list of endpoints says.
pub open spec fn endpoint_views(endpoints: Seq<Endpoint>) -> Seq<EndpointView> {
    endpoints.map_values(|e: Endpoint| e@)
}

/// The pauses for the first, second, third and further consecutive faults, in
/// milliseconds. The last one stands for all that follow.
pub open spec fn backoff_ladder() -> Seq<u64> {
    seq![0, 100, 200, 500, 1000, 2000, 5000, 10000]
}

/// The pause after `consecutive` earlier faults in a row.
pub open spec fn backoff_pause(consecutive: nat) -> u64 {
    if consecutive < 7 {
        backoff_ladder()[consecutive as int]
    } else {
        backoff_ladder()[7]
    }
}

/// The state that a pause puts an endpoint in; no pause leaves it ready.
pub open spec fn paused(pause_ms: u64) -> EndpointStateView {
    if pause_ms > 0 {
        EndpointStateView::Backoff { pause_ms }
    } else {
        EndpointStateView::Ready
    }
}

/// The pause, in milliseconds, after `consecutive` earlier faults in a row.
///
/// The first fault costs nothing, and however long a fault persists the pause
/// does not grow beyond ten seconds.
pub fn backoff_ms(consecutive: usize) -> (pause: u64)
    ensures
        pause == backoff_pause(consecutive as nat),
{
    let ladder: [u64; 8] = [0, 100, 200, 500, 1000, 2000, 5000, 10000];
    if consecutive < 7 {
        ladder[consecutive]
    } else {
        ladder[7]
    }
}

/// How a fork signal stands to the position it answers: an endpoint whose newest
/// block lies below the contested parent was asked above its tip.
pub open spec fn fork_standing(first_block: BlockNumber, prev_blocks: Seq<BlockRefView>) -> Seq<char> {
    if prev_blocks.len() > 0 && prev_blocks.last().number < first_block - 1 {
        "above_tip"@
    } else {
        "at_tip"@
    }
}

impl EndpointView {
    /// Whether the endpoint says that the position was abandoned.
    pub open spec fn is_on_fork(self) -> bool {
        self.state is Fork
    }

    /// Whether the endpoint is not paused.
    pub open spec fn is_active(self) -> bool {
        !(self.state is Backoff)
    }

    /// The endpoint after a fault of transport or parsing.
    pub open spec fn after_error(self) -> EndpointView {
        EndpointView {
            state: paused(backoff_pause(self.error_counter)),
            error_counter: self.error_counter + 1,
            ..self
        }
    }

    /// The endpoint after a block that did not extend the chain.
    pub open spec fn after_reject(self) -> EndpointView {
        EndpointView {
            state: paused(backoff_pause(self.reject_counter)),
            reject_counter: self.reject_counter + 1,
            ..self
        }
    }

    /// The endpoint once another one has moved the position forward: strikes at
    /// the old position no longer count against it.
    pub open spec fn relieved(self) -> EndpointView {
        EndpointView {
            state: if self.state is Backoff {
                EndpointStateView::Ready
            } else {
                self.state
            },
            reject_counter: 0,
            ..self
        }
    }

    /// The endpoint at a position that was set from outside.
    pub open spec fn repositioned(self) -> EndpointView {
        EndpointView {
            state: EndpointStateView::Ready,
            last_committed_block: None,
            reject_counter: 0,
            ..self
        }
    }
}

impl Endpoint {
    /// A fresh endpoint.
    pub fn new(source: String) -> (endpoint: Self)
        ensures
            endpoint@ == (EndpointView {
                source: source@,
                state: EndpointStateView::Ready,
                error_counter: 0,
                reject_counter: 0,
                last_committed_block: None,
            }),
    {
        Endpoint {
            source,
            state: EndpointState::Ready,
            error_counter: 0,
            reject_counter: 0,
            last_committed_block: None,
        }
    }

    /// Whether the endpoint says that the position was abandoned.
    pub fn is_on_fork(&self) -> (b: bool)
        ensures
            b == self@.is_on_fork(),
    {
        match self.state {
            EndpointState::Fork { .. } => true,
            _ => false,
        }
    }

    /// Whether the endpoint is not paused.
    pub fn is_active(&self) -> (b: bool)
        ensures
            b == self@.is_active(),
    {
        match self.state {
            EndpointState::Backoff { .. } => false,
            _ => true,
        }
    }

    /// Counts a fork signal.
    ///
    /// A source answers so only when its head is right below `from`, so hints
    /// within its rules top out at `from - 1`. Empty hints count as `at_tip`.
    pub fn on_fork_signal(&self, from: BlockNumber, prev_blocks: &Vec<BlockRef>, counts: &mut IngestMetrics)
        ensures
            final(counts)@ == (IngestMetricsView {
                fork_signals: prom::counted(
                    old(counts)@.fork_signals,
                    metrics::fork_signal_key(
                        self@.source,
                        fork_standing(from, types::block_refs(prev_blocks@)),
                    ),
                ),
                ..old(counts)@
            }),
    {
        let mut standing: &'static str = "at_tip";
        if prev_blocks.len() > 0 {
            let top: BlockNumber = prev_blocks[prev_blocks.len() - 1].number;
            if top < from.saturating_sub(1) {
                standing = "above_tip";
            }
        }
        record_ingest_fork_signal(counts, self.source.as_str(), standing);
    }

    /// A fault of transport or parsing: counts it, pauses the endpoint, and
    /// climbs the error ladder.
    pub fn on_error(&mut self, kind: &str, counts: &mut IngestMetrics)
        requires
            old(self).error_counter < usize::MAX,
        ensures
            final(self)@ == old(self)@.after_error(),
            final(counts)@ == (IngestMetricsView {
                source_errors: prom::counted(
                    old(counts)@.source_errors,
                    metrics::source_error_key(old(self)@.source, kind@),
                ),
                ..old(counts)@
            }),
    {
        record_ingest_source_error(counts, self.source.as_str(), kind);
        let pause_ms: u64 = backoff_ms(self.error_counter);
        self.state = if pause_ms > 0 {
            EndpointState::Backoff { pause_ms }
        } else {
            EndpointState::Ready
        };
        self.error_counter = self.error_counter + 1;
    }

    /// A well-formed block that did not extend the chain: counts it, pauses the
    /// endpoint, and climbs the reject ladder. The pause is taken from the strikes
    /// before this one, so that the first strike is retried at once.
    pub fn on_reject(&mut self, reason: &str, counts: &mut IngestMetrics)
        requires
            old(self).reject_counter < usize::MAX,
        ensures
            final(self)@ == old(self)@.after_reject(),
            final(counts)@ == (IngestMetricsView {
                linkage_rejects: prom::counted(
                    old(counts)@.linkage_rejects,
                    metrics::linkage_reject_key(old(self)@.source, reason@),
                ),
                ..old(counts)@
            }),
    {
        record_ingest_linkage_reject(counts, self.source.as_str(), reason);
        let pause_ms: u64 = backoff_ms(self.reject_counter);
        self.state = if pause_ms > 0 {
            EndpointState::Backoff { pause_ms }
        } else {
            EndpointState::Ready
        };
        self.reject_counter = self.reject_counter + 1;
    }
}

/// What all endpoints share: where the chain stands.
#[derive(Debug)]
pub struct DataSourceState {
    /// The newest final block reported for the current branch.
    pub finalized_head: Option<BlockRef>,
    pub position: BlockStreamRequest,
    /// Whether the position was reached by a block of this stream, rather than set
    /// from outside.
    pub position_is_canonical: bool,
    /// The highest final height that any endpoint has ever named.
    pub max_seen_finalized_block: BlockNumber,
    /// Whether the time limit for a fork decision is running.
    pub fork_consensus_timeout: bool,
    /// When the first fork signal at this position came.
    pub fork_consensus_started_at: Option<Duration>,
}

/// What a [`DataSourceState`] says.
pub struct DataSourceView {
    pub finalized_head: Option<BlockRefView>,
    pub position: Position,
    pub position_is_canonical: bool,
    pub max_seen_finalized_block: BlockNumber,
    pub fork_consensus_timeout: bool,
    pub fork_consensus_started_at: Option<nat>,
}

impl View for DataSourceState {
    type V = DataSourceView;

    open spec fn view(&self) -> DataSourceView {
        DataSourceView {
            finalized_head: types::block_ref_view(self.finalized_head),
            position: self.position@,
            position_is_canonical: self.position_is_canonical,
            max_seen_finalized_block: self.max_seen_finalized_block,
            fork_consensus_timeout: self.fork_consensus_timeout,
            fork_consensus_started_at: match self.fork_consensus_started_at {
                Some(at) => Some(at@),
                None => None,
            },
        }
    }
}

/// A block as it came from an endpoint.
#[derive(Debug)]
pub struct SourceBlock<B> {
    pub number: BlockNumber,
    pub hash: String,
    pub parent_hash: String,
    pub payload: B,
}

/// What the stream as a whole reports.
#[derive(Debug)]
pub enum DataEvent<B> {
    /// A new final block was named.
    FinalizedHead(BlockRef),
    /// The chain grew by a block.
    Block { block: SourceBlock<B>, is_final: bool },
    /// The position was abandoned; these blocks are held instead, oldest first.
    Fork(Vec<BlockRef>),
    /// The chain may have been followed to its end.
    MaybeOnHead,
}

/// What came of asking an endpoint.
#[derive(Debug)]
pub enum Polled<B> {
    /// Nothing yet.
    Pending,
    /// The request is answered by a stream.
    Streaming { finalized_head: Option<BlockRef> },
    /// The request is answered, at time `now`, by the blocks held instead.
    Forked { prev_blocks: Vec<BlockRef>, now: Duration },
    /// The request, the stream or the parsing of a block failed.
    Failed { kind: String },
    /// The stream delivered a block.
    Block(SourceBlock<B>),
    /// The stream ended.
    Ended,
    /// The pause is over.
    Rested,
}

/// What an endpoint's answer leads to.
#[derive(Debug)]
pub enum EndpointStep<B> {
    /// The endpoint has more to be asked at once.
    Continue,
    /// The endpoint has nothing for now.
    Pending,
    /// The stream reports an event.
    Event(DataEvent<B>),
}

impl<B> Polled<B> {
    /// Whether an endpoint in `state` can have answered so.
    pub open spec fn fits_state(self, state: EndpointStateView) -> bool {
        match self {
            Polled::Pending => state is Req || state is Stream || state is Backoff,
            Polled::Streaming { .. } => state is Req,
            Polled::Forked { .. } => state is Req,
            Polled::Failed { .. } => state is Req || state is Stream,
            Polled::Block(_) => state is Stream,
            Polled::Ended => state is Stream,
            Polled::Rested => state is Backoff,
        }
    }

    /// Whether `endpoint` can have answered so, and has room to count it: a height
    /// needs a successor, a counter a next value.
    pub open spec fn acceptable(self, endpoint: EndpointView) -> bool {
        &&& self.fits_state(endpoint.state)
        &&& self matches Polled::Block(b) ==> b.number < u64::MAX && endpoint.reject_counter < usize::MAX
        &&& self is Failed ==> endpoint.error_counter < usize::MAX
    }
}

impl DataSourceView {
    /// No fork decision is under way.
    pub open spec fn without_consensus(self) -> DataSourceView {
        DataSourceView { fork_consensus_timeout: false, fork_consensus_started_at: None, ..self }
    }

    /// Whether a block with that parent extends the chain here. Any block does
    /// where no parent is known.
    pub open spec fn links(self, parent_hash: Seq<char>) -> bool {
        match self.position.parent_block_hash {
            Some(expected) => parent_hash == expected,
            None => true,
        }
    }

    /// The chain grown by a block.
    pub open spec fn grown(self, number: BlockNumber, hash: Seq<char>, is_final: bool) -> DataSourceView {
        DataSourceView {
            position: Position { first_block: (number + 1) as u64, parent_block_hash: Some(hash) },
            position_is_canonical: true,
            finalized_head: if is_final {
                Some(BlockRefView { number, hash })
            } else {
                self.finalized_head
            },
            ..self.without_consensus()
        }
    }

    /// Whether naming `head` as final says something new: there is a known block
    /// below the position, `head` lies above the finality known so far, and, if
    /// `head` is not below the position, the position is known to be on its branch.
    pub open spec fn head_is_news(self, head: BlockRefView) -> bool {
        &&& self.position.first_block > 0
        &&& self.position.parent_block_hash is Some
        &&& self.finalized_head matches Some(known) ==> known.number < head.number
        &&& head.number >= self.position.first_block ==> self.position_is_canonical
    }

    /// The part of the finality of `head` that the chain has reached.
    pub open spec fn reached_finality(self, head: BlockRefView) -> BlockRefView {
        if head.number >= self.position.first_block {
            BlockRefView {
                number: (self.position.first_block - 1) as u64,
                hash: self.position.parent_block_hash.unwrap(),
            }
        } else {
            head
        }
    }

    /// The state after an endpoint has named `head` as final.
    pub open spec fn told_head(self, head: Option<BlockRefView>) -> DataSourceView {
        match head {
            None => self,
            Some(h) => DataSourceView {
                max_seen_finalized_block: if h.number > self.max_seen_finalized_block {
                    h.number
                } else {
                    self.max_seen_finalized_block
                },
                finalized_head: if self.head_is_news(h) {
                    Some(self.reached_finality(h))
                } else {
                    self.finalized_head
                },
                ..self
            },
        }
    }

    /// The state after a fork signal at time `now`; the first one counts.
    pub open spec fn told_fork(self, now: nat) -> DataSourceView {
        DataSourceView {
            fork_consensus_started_at: match self.fork_consensus_started_at {
                Some(at) => Some(at),
                None => Some(now),
            },
            ..self
        }
    }

    /// Whether the end of a stream of `endpoint` may be the end of the chain: it
    /// committed the block below the position, and no finality lies beyond that.
    pub open spec fn may_be_head(self, endpoint: EndpointView) -> bool {
        let below = if self.position.first_block == 0 {
            0u64
        } else {
            (self.position.first_block - 1) as u64
        };
        below >= self.max_seen_finalized_block && endpoint.last_committed_block == Some(below)
    }

    /// The state at a position that was set from outside.
    pub open spec fn repositioned(self, position: Position) -> DataSourceView {
        DataSourceView {
            position,
            position_is_canonical: false,
            finalized_head: None,
            ..self.without_consensus()
        }
    }
}

/// The shared state, one endpoint and the counts, before or after an answer.
pub struct Standing {
    pub source: DataSourceView,
    pub endpoint: EndpointView,
    pub counts: IngestMetricsView,
}

/// Where the answer `polled` leads from `at`.
pub open spec fn answered<B>(at: Standing, polled: Polled<B>) -> Standing {
    match polled {
        Polled::Pending => at,
        Polled::Streaming { finalized_head } => Standing {
            source: at.source.told_head(types::block_ref_view(finalized_head)),
            endpoint: EndpointView {
                error_counter: 0,
                state: EndpointStateView::Stream {
                    finalized_head: match finalized_head {
                        Some(head) => head.number,
                        None => 0,
                    },
                },
                ..at.endpoint
            },
            ..at
        },
        Polled::Forked { prev_blocks, now } => Standing {
            source: at.source.told_fork(now@),
            endpoint: EndpointView {
                error_counter: 0,
                state: EndpointStateView::Fork {
                    req: at.endpoint.state->Req_req,
                    prev_blocks: types::block_refs(prev_blocks@),
                },
                ..at.endpoint
            },
            counts: IngestMetricsView {
                fork_signals: prom::counted(
                    at.counts.fork_signals,
                    metrics::fork_signal_key(
                        at.endpoint.source,
                        fork_standing(
                            at.endpoint.state->Req_req.first_block,
                            types::block_refs(prev_blocks@),
                        ),
                    ),
                ),
                ..at.counts
            },
        },
        Polled::Failed { kind } => Standing {
            endpoint: at.endpoint.after_error(),
            counts: IngestMetricsView {
                source_errors: prom::counted(
                    at.counts.source_errors,
                    metrics::source_error_key(at.endpoint.source, kind@),
                ),
                ..at.counts
            },
            ..at
        },
        Polled::Block(block) => {
            let calmed = EndpointView { error_counter: 0, ..at.endpoint };
            if block.number < at.source.position.first_block {
                Standing { endpoint: calmed, ..at }
            } else if at.source.links(block.parent_hash@) {
                Standing {
                    source: at.source.grown(
                        block.number,
                        block.hash@,
                        at.endpoint.state->Stream_finalized_head >= block.number,
                    ),
                    endpoint: EndpointView {
                        reject_counter: 0,
                        last_committed_block: Some(block.number),
                        ..calmed
                    },
                    ..at
                }
            } else {
                Standing {
                    endpoint: calmed.after_reject(),
                    counts: IngestMetricsView {
                        linkage_rejects: prom::counted(
                            at.counts.linkage_rejects,
                            metrics::linkage_reject_key(at.endpoint.source, "parent_hash_mismatch"@),
                        ),
                        ..at.counts
                    },
                    ..at
                }
            }
        },
        Polled::Ended => Standing {
            endpoint: EndpointView {
                error_counter: 0,
                state: EndpointStateView::Ready,
                ..at.endpoint
            },
            ..at
        },
        Polled::Rested => Standing {
            endpoint: EndpointView { state: EndpointStateView::Ready, ..at.endpoint },
            ..at
        },
    }
}

/// What the answer `polled` leads to from `at`.
pub open spec fn step_of<B>(at: Standing, polled: Polled<B>) -> EndpointStep<B> {
    match polled {
        Polled::Pending => EndpointStep::Pending,
        Polled::Streaming { finalized_head: Some(head) } if at.source.head_is_news(head@) => EndpointStep::Event(
            DataEvent::FinalizedHead(head),
        ),
        Polled::Block(block) if block.number >= at.source.position.first_block && at.source.links(
            block.parent_hash@,
        ) => EndpointStep::Event(
            DataEvent::Block {
                block,
                is_final: at.endpoint.state->Stream_finalized_head >= block.number,
            },
        ),
        Polled::Ended if at.source.may_be_head(at.endpoint) => EndpointStep::Event(DataEvent::MaybeOnHead),
        _ => EndpointStep::Continue,
    }
}

/// Sets `head` to the block `number` with that `hash`.
fn set_head(head: &mut Option<BlockRef>, number: BlockNumber, hash: &str)
    ensures
        types::block_ref_view(*final(head)) == Some(BlockRefView { number, hash: hash@ }),
{
    *head = Some(BlockRef { number, hash: hash.to_owned() });
}

impl DataSourceState {
    /// Gives up any fork decision under way.
    pub fn reset_fork_consensus(&mut self)
        ensures
            final(self)@ == old(self)@.without_consensus(),
            final(self).position == old(self).position,
    {
        self.fork_consensus_timeout = false;
        self.fork_consensus_started_at = None;
    }

    /// Lets a block extend the chain, unless its parent is another block than the
    /// one the chain stands on.
    pub fn accept_new_block(
        &mut self,
        number: BlockNumber,
        hash: &str,
        parent_hash: &String,
        is_final: bool,
    ) -> (accepted: bool)
        requires
            old(self)@.position.first_block <= number < u64::MAX,
        ensures
            accepted == old(self)@.links(parent_hash@),
            accepted ==> final(self)@ == old(self)@.grown(number, hash@, is_final),
            !accepted ==> *final(self) == *old(self),
    {
        match &self.position.parent_block_hash {
            Some(expected) => {
                if !(*parent_hash == *expected) {
                    return false;
                }
            },
            None => {},
        }
        self.position = BlockStreamRequest {
            first_block: number + 1,
            parent_block_hash: Some(hash.to_owned()),
        };
        self.position_is_canonical = true;
        self.reset_fork_consensus();
        if is_final {
            set_head(&mut self.finalized_head, number, hash);
        }
        true
    }

    /// Takes note of a final block that an endpoint has named, and says whether
    /// that is news.
    pub fn on_new_finalized_head(&mut self, new_head: Option<&BlockRef>) -> (news: bool)
        ensures
            new_head is None ==> *final(self) == *old(self) && !news,
            new_head matches Some(head) ==> news == old(self)@.head_is_news(head@) && final(self)@
                == old(self)@.told_head(Some(head@)),
    {
        let head: &BlockRef = match new_head {
            Some(head) => head,
            None => {
                return false;
            },
        };
        if head.number > self.max_seen_finalized_block {
            self.max_seen_finalized_block = head.number;
        }
        if self.position.first_block == 0 {
            return false;
        }
        let parent_hash: String = match &self.position.parent_block_hash {
            Some(hash) => hash.clone(),
            None => {
                return false;
            },
        };
        match &self.finalized_head {
            Some(known) => {
                if known.number >= head.number {
                    return false;
                }
            },
            None => {},
        }
        if head.number >= self.position.first_block {
            if !self.position_is_canonical {
                return false;
            }
            set_head(&mut self.finalized_head, self.position.first_block - 1, parent_hash.as_str());
        } else {
            set_head(&mut self.finalized_head, head.number, head.hash.as_str());
        }
        true
    }

    /// Takes in what came of asking `endpoint`.
    pub fn poll_endpoint<B>(
        &mut self,
        endpoint: &mut Endpoint,
        polled: Polled<B>,
        counts: &mut IngestMetrics,
    ) -> (step: EndpointStep<B>)
        requires
            polled.acceptable(old(endpoint)@),
        ensures
            (Standing { source: final(self)@, endpoint: final(endpoint)@, counts: final(counts)@ })
                == answered(
                Standing { source: old(self)@, endpoint: old(endpoint)@, counts: old(counts)@ },
                polled,
            ),
            step == step_of(
                Standing { source: old(self)@, endpoint: old(endpoint)@, counts: old(counts)@ },
                polled,
            ),
    {
        match polled {
            Polled::Pending => EndpointStep::Pending,
            Polled::Streaming { finalized_head } => {
                let news: bool = self.on_new_finalized_head(finalized_head.as_ref());
                endpoint.error_counter = 0;
                endpoint.state = EndpointState::Stream {
                    finalized_head: match &finalized_head {
                        Some(head) => head.number,
                        None => 0,
                    },
                };
                match finalized_head {
                    Some(head) => {
                        if news {
                            return EndpointStep::Event(DataEvent::FinalizedHead(head));
                        }
                    },
                    None => {},
                }
                EndpointStep::Continue
            },
            Polled::Forked { prev_blocks, now } => {
                if self.fork_consensus_started_at.is_none() {
                    self.fork_consensus_started_at = Some(now);
                }
                let req: BlockStreamRequest = match &endpoint.state {
                    EndpointState::Req { req } => req.clone(),
                    _ => self.position.clone(),
                };
                endpoint.on_fork_signal(req.first_block, &prev_blocks, counts);
                endpoint.error_counter = 0;
                endpoint.state = EndpointState::Fork { req, prev_blocks };
                EndpointStep::Continue
            },
            Polled::Failed { kind } => {
                endpoint.on_error(kind.as_str(), counts);
                EndpointStep::Continue
            },
            Polled::Block(block) => {
                endpoint.error_counter = 0;
                if block.number >= self.position.first_block {
                    let is_final: bool = match endpoint.state {
                        EndpointState::Stream { finalized_head } => finalized_head >= block.number,
                        _ => false,
                    };
                    if self.accept_new_block(
                        block.number,
                        block.hash.as_str(),
                        &block.parent_hash,
                        is_final,
                    ) {
                        endpoint.reject_counter = 0;
                        endpoint.last_committed_block = Some(block.number);
                        return EndpointStep::Event(DataEvent::Block { block, is_final });
                    }
                    endpoint.on_reject("parent_hash_mismatch", counts);
                }
                EndpointStep::Continue
            },
            Polled::Ended => {
                endpoint.error_counter = 0;
                endpoint.state = EndpointState::Ready;
                let below: BlockNumber = self.position.first_block.saturating_sub(1);
                let committed_below: bool = match endpoint.last_committed_block {
                    Some(number) => number == below,
                    None => false,
                };
                if below >= self.max_seen_finalized_block && committed_below {
                    return EndpointStep::Event(DataEvent::MaybeOnHead);
                }
                EndpointStep::Continue
            },
            Polled::Rested => {
                endpoint.state = EndpointState::Ready;
                EndpointStep::Continue
            },
        }
    }
}

/// What to ask of an endpoint.
#[derive(Debug)]
pub enum EndpointAsk {
    /// Send this request, and see whether it is answered.
    Request(BlockStreamRequest),
    /// See whether the request is answered.
    PollRequest,
    /// See whether the stream has a block.
    PollBlocks,
    /// See whether the pause of that many milliseconds is over.
    PollBackoff { pause_ms: u64 },
}

/// What to do next to learn whether the stream has an event.
#[derive(Debug)]
pub enum PollAsk<B> {
    /// Ask the endpoint at `index`, and hand the answer to [`StandardDataSource::resume`].
    Endpoint { index: usize, ask: EndpointAsk },
    /// No endpoint has anything: go on with [`StandardDataSource::decide`].
    Decide,
    /// See whether the time limit for a fork decision has passed, starting it if it
    /// is not running, and go on with [`StandardDataSource::timed_out`].
    PollTimeout,
    /// The stream reports an event.
    Ready(DataEvent<B>),
    /// The stream has nothing for now.
    Pending,
}

impl DataSourceView {
    /// Whether the endpoint says that the current position was abandoned.
    pub open spec fn contested_by(self, endpoint: EndpointView) -> bool {
        endpoint.state matches EndpointStateView::Fork { req, .. } && req == self.position
    }

    /// The first of the endpoints, from `from` on, that does not contest the
    /// position.
    pub open spec fn next_open(self, endpoints: Seq<EndpointView>, from: nat) -> nat
        decreases endpoints.len() - from,
    {
        if from >= endpoints.len() {
            endpoints.len()
        } else if self.contested_by(endpoints[from as int]) {
            self.next_open(endpoints, from + 1)
        } else {
            from
        }
    }

    /// The endpoint once it has been asked: one that is ready, or whose fork signal
    /// was about another position, gets a new request.
    pub open spec fn asked(self, endpoint: EndpointView) -> EndpointView {
        if endpoint.state is Ready || endpoint.state is Fork {
            EndpointView { state: EndpointStateView::Req { req: self.position }, ..endpoint }
        } else {
            endpoint
        }
    }

    /// Whether `ask` is what to ask of the endpoint.
    pub open spec fn is_ask(self, endpoint: EndpointView, ask: EndpointAsk) -> bool {
        match endpoint.state {
            EndpointStateView::Ready | EndpointStateView::Fork { .. } => ask matches EndpointAsk::Request(req) && req@
                == self.position,
            EndpointStateView::Req { .. } => ask is PollRequest,
            EndpointStateView::Stream { .. } => ask is PollBlocks,
            EndpointStateView::Backoff { pause_ms } => ask == (EndpointAsk::PollBackoff { pause_ms }),
        }
    }
}

impl DataSourceState {
    /// What to ask of an endpoint; nothing, if it contests the current position.
    pub fn next_ask(&self, endpoint: &mut Endpoint) -> (ask: Option<EndpointAsk>)
        ensures
            ask is None <==> self@.contested_by(old(endpoint)@),
            ask is None ==> *final(endpoint) == *old(endpoint),
            ask matches Some(a) ==> self@.is_ask(old(endpoint)@, a) && final(endpoint)@ == self@.asked(
                old(endpoint)@,
            ),
    {
        match &endpoint.state {
            EndpointState::Req { .. } => {
                return Some(EndpointAsk::PollRequest);
            },
            EndpointState::Stream { .. } => {
                return Some(EndpointAsk::PollBlocks);
            },
            EndpointState::Backoff { pause_ms } => {
                return Some(EndpointAsk::PollBackoff { pause_ms: *pause_ms });
            },
            EndpointState::Fork { req, .. } => {
                if req.same(&self.position) {
                    return None;
                }
            },
            EndpointState::Ready => {},
        }
        endpoint.state = EndpointState::Req { req: self.position.clone() };
        Some(EndpointAsk::Request(self.position.clone()))
    }
}

/// A stream of blocks out of several endpoints.
#[derive(Debug)]
pub struct StandardDataSource {
    endpoints: Vec<Endpoint>,
    state: DataSourceState,
    /// The endpoint that is being asked.
    cursor: usize,
}

/// What a [`StandardDataSource`] says.
pub struct SourceSetView {
    pub endpoints: Seq<EndpointView>,
    pub state: DataSourceView,
    /// How many endpoints have nothing for now; the next one is being asked.
    pub cursor: nat,
}

impl View for StandardDataSource {
    type V = SourceSetView;

    closed spec fn view(&self) -> SourceSetView {
        SourceSetView {
            endpoints: endpoint_views(self.endpoints@),
            state: self.state@,
            cursor: self.cursor as nat,
        }
    }
}

/// How many endpoints say that the position was abandoned.
pub open spec fn fork_count(endpoints: Seq<EndpointView>) -> nat
    decreases endpoints.len(),
{
    if endpoints.len() == 0 {
        0
    } else {
        fork_count(endpoints.drop_last()) + if endpoints.last().is_on_fork() {
            1nat
        } else {
            0nat
        }
    }
}

/// How many endpoints are not paused.
pub open spec fn active_count(endpoints: Seq<EndpointView>) -> nat
    decreases endpoints.len(),
{
    if endpoints.len() == 0 {
        0
    } else {
        active_count(endpoints.drop_last()) + if endpoints.last().is_active() {
            1nat
        } else {
            0nat
        }
    }
}

/// The longest list of blocks held instead; of lists of equal length, the first.
pub open spec fn longest_hints(endpoints: Seq<EndpointView>) -> Seq<BlockRefView>
    decreases endpoints.len(),
{
    if endpoints.len() == 0 {
        Seq::empty()
    } else {
        let best = longest_hints(endpoints.drop_last());
        match endpoints.last().state {
            EndpointStateView::Fork { prev_blocks, .. } if prev_blocks.len() > best.len() => prev_blocks,
            _ => best,
        }
    }
}

/// Why a branch is given up.
#[derive(Clone, Copy, Debug, PartialEq, Eq, Structural)]
pub enum ForkDecision {
    /// More than half of the endpoints say so.
    Majority,
    /// Every endpoint that is not paused says so.
    AllActive,
    /// Some say so, and the others were waited for long enough.
    Timeout,
}

impl ForkDecision {
    /// The name under which the decision is counted.
    pub open spec fn label(self) -> Seq<char> {
        match self {
            ForkDecision::Majority => "majority"@,
            ForkDecision::AllActive => "all_active"@,
            ForkDecision::Timeout => "timeout"@,
        }
    }

    /// The name under which the decision is counted.
    pub fn as_str(self) -> (label: &'static str)
        ensures
            label@ == self.label(),
    {
        match self {
            ForkDecision::Majority => "majority",
            ForkDecision::AllActive => "all_active",
            ForkDecision::Timeout => "timeout",
        }
    }
}

impl SourceSetView {
    /// What holds of every stream: no request is about a position ahead of the
    /// current one, a contested position has a first fork signal, the endpoints
    /// already asked have no stale fork signal, and finality stays below the
    /// position.
    pub open spec fn consistent(self) -> bool {
        &&& self.cursor <= self.endpoints.len()
        &&& forall|i: int|
            0 <= i < self.endpoints.len() ==> match (#[trigger] self.endpoints[i]).state {
                EndpointStateView::Req { req } => req.first_block <= self.state.position.first_block,
                EndpointStateView::Fork { req, .. } => req.first_block <= self.state.position.first_block,
                _ => true,
            }
        &&& forall|i: int|
            0 <= i < self.endpoints.len() && self.state.contested_by(#[trigger] self.endpoints[i])
                ==> self.state.fork_consensus_started_at is Some
        &&& forall|i: int|
            0 <= i < self.cursor && (#[trigger] self.endpoints[i]).is_on_fork() ==> self.state.contested_by(
                self.endpoints[i],
            )
        &&& self.state.finalized_head matches Some(head) ==> head.number < self.state.position.first_block
    }

    /// With the endpoint at `cursor` being asked.
    pub open spec fn at(self, cursor: nat) -> SourceSetView {
        SourceSetView { cursor, ..self }
    }

    /// After asking the next endpoint that does not contest the position.
    pub open spec fn scanned(self) -> SourceSetView {
        let i = self.state.next_open(self.endpoints, self.cursor);
        if i < self.endpoints.len() {
            SourceSetView {
                endpoints: self.endpoints.update(i as int, self.state.asked(self.endpoints[i as int])),
                cursor: i,
                ..self
            }
        } else {
            self.at(i)
        }
    }

    /// Whether `ask` asks that endpoint, or a decision if there is none.
    pub open spec fn scan_asks<B>(self, ask: PollAsk<B>) -> bool {
        let i = self.state.next_open(self.endpoints, self.cursor);
        if i < self.endpoints.len() {
            ask matches PollAsk::Endpoint { index, ask } && index == i && self.state.is_ask(
                self.endpoints[i as int],
                ask,
            )
        } else {
            ask is Decide
        }
    }

    /// The endpoint being asked, with what it shares and the counts.
    pub open spec fn standing(self, counts: IngestMetricsView) -> Standing {
        Standing { source: self.state, endpoint: self.endpoints[self.cursor as int], counts }
    }

    /// After the endpoint being asked has come to stand so.
    pub open spec fn with_standing(self, standing: Standing) -> SourceSetView {
        SourceSetView {
            endpoints: self.endpoints.update(self.cursor as int, standing.endpoint),
            state: standing.source,
            ..self
        }
    }

    /// After the endpoint being asked has moved the position: the others are
    /// relieved of their strikes.
    pub open spec fn others_relieved(self) -> SourceSetView {
        SourceSetView {
            endpoints: Seq::new(
                self.endpoints.len(),
                |i: int|
                    if i == self.cursor {
                        self.endpoints[i]
                    } else {
                        self.endpoints[i].relieved()
                    },
            ),
            ..self
        }
    }

    /// The decision that the endpoints allow at once.
    pub open spec fn decision(self) -> Option<ForkDecision> {
        let forks = fork_count(self.endpoints);
        if forks == 0 {
            None
        } else if forks > self.endpoints.len() / 2 {
            Some(ForkDecision::Majority)
        } else if forks == active_count(self.endpoints) {
            Some(ForkDecision::AllActive)
        } else {
            None
        }
    }

    /// After giving up the branch: every endpoint is asked anew.
    pub open spec fn given_up(self) -> SourceSetView {
        SourceSetView {
            endpoints: self.endpoints.map_values(
                |e: EndpointView| EndpointView { state: EndpointStateView::Ready, ..e },
            ),
            state: self.state.without_consensus(),
            cursor: 0,
        }
    }

    /// After being put at `position` from outside.
    pub open spec fn repositioned(self, position: Position) -> SourceSetView {
        SourceSetView {
            endpoints: self.endpoints.map_values(|e: EndpointView| e.repositioned()),
            state: self.state.repositioned(position),
            cursor: 0,
        }
    }

    /// The counts after deciding at time `now`: how long it took since the first
    /// fork signal.
    pub open spec fn decided_counts(
        self,
        counts: IngestMetricsView,
        decision: ForkDecision,
        now: nat,
    ) -> IngestMetricsView {
        let started = self.state.fork_consensus_started_at.unwrap();
        IngestMetricsView {
            fork_consensus: counts.fork_consensus.push(
                (
                    metrics::fork_consensus_key(decision.label()),
                    if now >= started {
                        (now - started) as nat
                    } else {
                        0
                    },
                ),
            ),
            ..counts
        }
    }
}

impl StandardDataSource {
    /// A stream out of the endpoints called `sources`, at the start of the chain.
    pub fn new(sources: Vec<String>) -> (stream: Self)
        ensures
            stream@ == (SourceSetView {
                endpoints: Seq::new(
                    sources@.len(),
                    |i: int|
                        EndpointView {
                            source: sources@[i]@,
                            state: EndpointStateView::Ready,
                            error_counter: 0,
                            reject_counter: 0,
                            last_committed_block: None,
                        },
                ),
                state: DataSourceView {
                    finalized_head: None,
                    position: Position { first_block: 0, parent_block_hash: None },
                    position_is_canonical: false,
                    max_seen_finalized_block: 0,
                    fork_consensus_timeout: false,
                    fork_consensus_started_at: None,
                },
                cursor: 0,
            }),
            stream@.consistent(),
    {
        let mut endpoints: Vec<Endpoint> = Vec::new();
        let mut i: usize = 0;
        while i < sources.len()
            invariant
                i <= sources.len(),
                endpoints.len() == i,
                forall|j: int|
                    0 <= j < i ==> (#[trigger] endpoints@[j])@ == (EndpointView {
                        source: sources@[j]@,
                        state: EndpointStateView::Ready,
                        error_counter: 0,
                        reject_counter: 0,
                        last_committed_block: None,
                    }),
            decreases sources.len() - i,
        {
            endpoints.push(Endpoint::new(sources[i].clone()));
            i += 1;
        }
        let stream: StandardDataSource = StandardDataSource {
            endpoints,
            state: DataSourceState {
                finalized_head: None,
                position: BlockStreamRequest { first_block: 0, parent_block_hash: None },
                position_is_canonical: false,
                max_seen_finalized_block: 0,
                fork_consensus_timeout: false,
                fork_consensus_started_at: None,
            },
            cursor: 0,
        };
        assert(stream@.endpoints =~= Seq::new(
            sources@.len(),
            |i: int|
                EndpointView {
                    source: sources@[i]@,
                    state: EndpointStateView::Ready,
                    error_counter: 0,
                    reject_counter: 0,
                    last_committed_block: None,
                },
        ));
        stream
    }

    /// The number of endpoints.
    pub fn endpoint_count(&self) -> (n: usize)
        ensures
            n == self@.endpoints.len(),
    {
        self.endpoints.len()
    }

    /// The endpoint at `index`.
    pub fn endpoint(&self, index: usize) -> (endpoint: &Endpoint)
        requires
            index < self@.endpoints.len(),
        ensures
            endpoint@ == self@.endpoints[index as int],
    {
        &self.endpoints[index]
    }

    /// The height of the block that comes next.
    pub fn get_next_block(&self) -> (number: BlockNumber)
        ensures
            number == self@.state.position.first_block,
    {
        self.state.position.first_block
    }

    /// The hash of the block below, where it is known.
    pub fn get_parent_block_hash(&self) -> (hash: Option<&String>)
        ensures
            hash is Some == self@.state.position.parent_block_hash is Some,
            hash matches Some(h) ==> self@.state.position.parent_block_hash == Some(h@),
    {
        self.state.position.parent_block_hash.as_ref()
    }

    /// Goes on from the block `next_block` on top of `parent_block_hash`. Nothing
    /// that was found out at the old position counts any more.
    pub fn set_position(&mut self, next_block: BlockNumber, parent_block_hash: Option<&str>)
        ensures
            final(self)@ == old(self)@.repositioned(
                Position {
                    first_block: next_block,
                    parent_block_hash: match parent_block_hash {
                        Some(h) => Some(h@),
                        None => None,
                    },
                },
            ),
            final(self)@.consistent(),
    {
        self.state.position.first_block = next_block;
        self.state.position.set_parent_block_hash(parent_block_hash);
        self.state.position_is_canonical = false;
        self.state.finalized_head = None;
        self.state.reset_fork_consensus();
        self.cursor = 0;
        let ghost state = self.state;
        let n: usize = self.endpoints.len();
        let mut i: usize = 0;
        while i < n
            invariant
                i <= n,
                n == self.endpoints.len(),
                n == old(self).endpoints.len(),
                self.state == state,
                self.cursor == 0,
                forall|j: int|
                    0 <= j < i ==> (#[trigger] self.endpoints@[j])@ == old(self).endpoints@[j]@.repositioned(),
                forall|j: int| i <= j < n ==> #[trigger] self.endpoints@[j] == old(self).endpoints@[j],
            decreases n - i,
        {
            self.endpoints[i].state = EndpointState::Ready;
            self.endpoints[i].last_committed_block = None;
            self.endpoints[i].reject_counter = 0;
            i += 1;
        }
        assert(self@.endpoints =~= old(self)@.endpoints.map_values(|e: EndpointView| e.repositioned()));
    }
}

impl StandardDataSource {
    /// Starts a round of questions: every endpoint is asked in turn, beginning with
    /// the first.
    pub fn poll_next_event<B>(&mut self) -> (ask: PollAsk<B>)
        requires
            old(self)@.consistent(),
        ensures
            final(self)@ == old(self)@.at(0).scanned(),
            old(self)@.at(0).scan_asks(ask),
            final(self)@.consistent(),
    {
        self.cursor = 0;
        self.scan()
    }

    /// Asks the first endpoint, from the one at the cursor on, that does not contest
    /// the position.
    fn scan<B>(&mut self) -> (ask: PollAsk<B>)
        requires
            old(self)@.consistent(),
        ensures
            final(self)@ == old(self)@.scanned(),
            old(self)@.scan_asks(ask),
            final(self)@.consistent(),
    {
        let n: usize = self.endpoints.len();
        while self.cursor < n
            invariant
                n == self.endpoints.len(),
                self.cursor <= n,
                self.endpoints@ == old(self).endpoints@,
                self.state == old(self).state,
                self@.consistent(),
                self@.state.next_open(self@.endpoints, self@.cursor) == old(self)@.state.next_open(
                    old(self)@.endpoints,
                    old(self)@.cursor,
                ),
            decreases n - self.cursor,
        {
            let i: usize = self.cursor;
            let ghost before = self@;
            let asked: Option<EndpointAsk> = self.state.next_ask(&mut self.endpoints[i]);
            assert(before.endpoints[i as int] == old(self).endpoints@[i as int]@);
            match asked {
                Some(ask) => {
                    assert(self@.endpoints =~= before.endpoints.update(
                        i as int,
                        before.state.asked(before.endpoints[i as int]),
                    ));
                    return PollAsk::Endpoint { index: i, ask };
                },
                None => {
                    assert(self.endpoints@ =~= old(self).endpoints@);
                    self.cursor = i + 1;
                },
            }
        }
        PollAsk::Decide
    }
}

impl StandardDataSource {
    /// Takes in what came of asking the endpoint at the cursor, and goes on.
    ///
    /// Once a block has moved the position, strikes at the old position no longer
    /// count against the other endpoints: their strikes are cleared and their
    /// pauses end.
    pub fn resume<B>(&mut self, polled: Polled<B>, counts: &mut IngestMetrics) -> (ask: PollAsk<B>)
        requires
            old(self)@.consistent(),
            old(self)@.cursor < old(self)@.endpoints.len(),
            polled.acceptable(old(self)@.endpoints[old(self)@.cursor as int]),
        ensures
            final(counts)@ == answered(old(self)@.standing(old(counts)@), polled).counts,
            ({
                let told = old(self)@.with_standing(answered(old(self)@.standing(old(counts)@), polled));
                match step_of(old(self)@.standing(old(counts)@), polled) {
                    EndpointStep::Continue => final(self)@ == told.scanned() && told.scan_asks(ask),
                    EndpointStep::Pending => final(self)@ == told.at(told.cursor + 1).scanned() && told.at(
                        told.cursor + 1,
                    ).scan_asks(ask),
                    EndpointStep::Event(DataEvent::Block { block, is_final }) => final(self)@
                        == told.others_relieved().at(0) && ask == PollAsk::Ready(
                        DataEvent::Block { block, is_final },
                    ),
                    EndpointStep::Event(event) => final(self)@ == told.at(0) && ask == PollAsk::Ready(event),
                }
            }),
            final(self)@.consistent(),
    {
        let i: usize = self.cursor;
        let ghost before = self@;
        let ghost at = before.standing(counts@);
        let step: EndpointStep<B> = self.state.poll_endpoint(&mut self.endpoints[i], polled, counts);
        let ghost told = before.with_standing(answered(at, polled));
        assert(self@.endpoints =~= told.endpoints);
        proof {
            lemma_answer_keeps_order(before, at, polled);
        }
        match step {
            EndpointStep::Continue => self.scan(),
            EndpointStep::Pending => {
                assert(i < self.endpoints.len());
                self.cursor = i + 1;
                self.scan()
            },
            EndpointStep::Event(event) => {
                if matches!(event, DataEvent::Block { .. }) {
                    self.relieve_others(i);
                }
                self.cursor = 0;
                PollAsk::Ready(event)
            },
        }
    }

    /// Clears the strikes of all endpoints but `committed`, and ends their pauses.
    fn relieve_others(&mut self, committed: usize)
        requires
            committed == old(self)@.cursor,
        ensures
            final(self)@ == old(self)@.others_relieved(),
    {
        let n: usize = self.endpoints.len();
        let mut j: usize = 0;
        while j < n
            invariant
                j <= n,
                n == self.endpoints.len(),
                n == old(self).endpoints.len(),
                self.state == old(self).state,
                self.cursor == old(self).cursor,
                committed == old(self).cursor,
                forall|k: int|
                    0 <= k < j ==> (#[trigger] self.endpoints@[k])@ == if k == committed {
                        old(self).endpoints@[k]@
                    } else {
                        old(self).endpoints@[k]@.relieved()
                    },
                forall|k: int| j <= k < n ==> #[trigger] self.endpoints@[k] == old(self).endpoints@[k],
            decreases n - j,
        {
            if j != committed {
                self.endpoints[j].reject_counter = 0;
                if !self.endpoints[j].is_active() {
                    self.endpoints[j].state = EndpointState::Ready;
                }
            }
            j += 1;
        }
        assert(self@.endpoints =~= old(self)@.others_relieved().endpoints);
    }
}

/// An answer keeps the stream consistent, and so does moving on after it.
proof fn lemma_answer_keeps_order<B>(before: SourceSetView, at: Standing, polled: Polled<B>)
    requires
        before.consistent(),
        before.cursor < before.endpoints.len(),
        at.source == before.state,
        at.endpoint == before.endpoints[before.cursor as int],
        polled.acceptable(at.endpoint),
    ensures
        ({
            let told = before.with_standing(answered(at, polled));
            match step_of(at, polled) {
                EndpointStep::Continue => told.consistent(),
                EndpointStep::Pending => told.at(told.cursor + 1).consistent(),
                EndpointStep::Event(_) => told.at(0).consistent() && told.others_relieved().at(0).consistent(),
            }
        }),
{
    let told = before.with_standing(answered(at, polled));
    let c = before.cursor as int;
    assert(told.endpoints[c] == answered(at, polled).endpoint);
    assert(forall|i: int| 0 <= i < told.endpoints.len() && i != c ==> told.endpoints[i] == before.endpoints[i]);
}

/// Where an endpoint is on a fork, the forks are not none.
proof fn lemma_fork_witness(endpoints: Seq<EndpointView>)
    ensures
        fork_count(endpoints) > 0 <==> exists|i: int| 0 <= i < endpoints.len() && (#[trigger] endpoints[i]).is_on_fork(),
    decreases endpoints.len(),
{
    if endpoints.len() > 0 {
        let init = endpoints.drop_last();
        lemma_fork_witness(init);
        let last = endpoints.len() - 1;
        if fork_count(init) > 0 {
            let i = choose|i: int| 0 <= i < init.len() && (#[trigger] init[i]).is_on_fork();
            assert(endpoints[i].is_on_fork());
        } else if endpoints[last].is_on_fork() {
            assert(endpoints[last] == endpoints.last());
        } else {
            assert forall|i: int| 0 <= i < endpoints.len() implies !(#[trigger] endpoints[i]).is_on_fork() by {
                if i < last {
                    assert(init[i] == endpoints[i]);
                }
            }
        }
    }
}

impl StandardDataSource {
    /// Decides about the fork signals, once no endpoint has anything.
    ///
    /// A majority of the endpoints, or all of them that are not paused, settle the
    /// matter at once. A minority does so when the time limit has passed.
    pub fn decide<B>(&mut self, now: Duration, counts: &mut IngestMetrics) -> (ask: PollAsk<B>)
        requires
            old(self)@.consistent(),
            old(self)@.cursor == old(self)@.endpoints.len(),
            old(self)@.decision() is Some ==> longest_hints(old(self)@.endpoints).len() > 0,
        ensures
            match old(self)@.decision() {
                Some(decision) => {
                    &&& ask matches PollAsk::Ready(DataEvent::Fork(chain)) && types::block_refs(chain@)
                        == longest_hints(old(self)@.endpoints)
                    &&& final(self)@ == old(self)@.given_up()
                    &&& final(counts)@ == old(self)@.decided_counts(old(counts)@, decision, now@)
                },
                None => {
                    &&& *final(counts) == *old(counts)
                    &&& if fork_count(old(self)@.endpoints) > 0 {
                        ask is PollTimeout && *final(self) == *old(self)
                    } else {
                        ask is Pending && final(self)@ == (SourceSetView {
                            state: old(self)@.state.without_consensus(),
                            cursor: 0,
                            ..old(self)@
                        })
                    }
                },
            },
            final(self)@.consistent(),
    {
        proof {
            lemma_fork_witness(self@.endpoints);
        }
        if self.count_forks() == 0 {
            self.state.reset_fork_consensus();
            self.cursor = 0;
            return PollAsk::Pending;
        }
        let decision: ForkDecision = match self.fork_decision() {
            Some(decision) => decision,
            None => {
                return PollAsk::PollTimeout;
            },
        };
        let chain: Vec<BlockRef> = self.conclude(decision, now, counts);
        PollAsk::Ready(DataEvent::Fork(chain))
    }

    /// Goes on after looking at the time limit for a fork decision: `elapsed` says
    /// whether it has passed.
    pub fn timed_out<B>(&mut self, elapsed: bool, now: Duration, counts: &mut IngestMetrics) -> (ask: PollAsk<B>)
        requires
            old(self)@.consistent(),
            old(self)@.cursor == old(self)@.endpoints.len(),
            fork_count(old(self)@.endpoints) > 0,
            elapsed ==> longest_hints(old(self)@.endpoints).len() > 0,
        ensures
            elapsed ==> {
                &&& ask matches PollAsk::Ready(DataEvent::Fork(chain)) && types::block_refs(chain@)
                    == longest_hints(old(self)@.endpoints)
                &&& final(self)@ == old(self)@.given_up()
                &&& final(counts)@ == old(self)@.decided_counts(old(counts)@, ForkDecision::Timeout, now@)
            },
            !elapsed ==> {
                &&& ask is Pending
                &&& final(self)@ == (SourceSetView {
                    state: DataSourceView { fork_consensus_timeout: true, ..old(self)@.state },
                    cursor: 0,
                    ..old(self)@
                })
                &&& *final(counts) == *old(counts)
            },
            final(self)@.consistent(),
    {
        if !elapsed {
            self.state.fork_consensus_timeout = true;
            self.cursor = 0;
            return PollAsk::Pending;
        }
        let chain: Vec<BlockRef> = self.conclude(ForkDecision::Timeout, now, counts);
        PollAsk::Ready(DataEvent::Fork(chain))
    }

    /// Whether the time limit for a fork decision is running.
    pub fn is_fork_timeout_running(&self) -> (running: bool)
        ensures
            running == self@.state.fork_consensus_timeout,
    {
        self.state.fork_consensus_timeout
    }

    /// The decision that the endpoints allow at once.
    pub fn fork_decision(&self) -> (decision: Option<ForkDecision>)
        ensures
            decision == self@.decision(),
    {
        let forks: usize = self.count_forks();
        if forks == 0 {
            None
        } else if forks > self.endpoints.len() / 2 {
            Some(ForkDecision::Majority)
        } else if forks == self.count_active() {
            Some(ForkDecision::AllActive)
        } else {
            None
        }
    }

    /// Whether any fork signal came with a block held instead. A decision needs
    /// one.
    pub fn has_fork_hints(&self) -> (b: bool)
        ensures
            b == (longest_hints(self@.endpoints).len() > 0),
    {
        let mut i: usize = 0;
        assert(self@.endpoints.take(0) =~= Seq::<EndpointView>::empty());
        while i < self.endpoints.len()
            invariant
                i <= self.endpoints.len(),
                longest_hints(self@.endpoints.take(i as int)).len() == 0,
            decreases self.endpoints.len() - i,
        {
            assert(self@.endpoints.take(i + 1).drop_last() =~= self@.endpoints.take(i as int));
            match &self.endpoints[i].state {
                EndpointState::Fork { prev_blocks, .. } => {
                    if prev_blocks.len() > 0 {
                        proof {
                            lemma_hints_grow(self@.endpoints, i + 1);
                        }
                        return true;
                    }
                },
                _ => {},
            }
            i += 1;
        }
        assert(self@.endpoints.take(self@.endpoints.len() as int) =~= self@.endpoints);
        false
    }

    /// The number of endpoints that say that the position was abandoned.
    fn count_forks(&self) -> (forks: usize)
        ensures
            forks == fork_count(self@.endpoints),
    {
        let mut forks: usize = 0;
        let mut i: usize = 0;
        assert(self@.endpoints.take(0) =~= Seq::<EndpointView>::empty());
        while i < self.endpoints.len()
            invariant
                forks <= i <= self.endpoints.len(),
                forks == fork_count(self@.endpoints.take(i as int)),
            decreases self.endpoints.len() - i,
        {
            assert(self@.endpoints.take(i + 1).drop_last() =~= self@.endpoints.take(i as int));
            if self.endpoints[i].is_on_fork() {
                forks += 1;
            }
            i += 1;
        }
        assert(self@.endpoints.take(self@.endpoints.len() as int) =~= self@.endpoints);
        forks
    }

    /// The number of endpoints that are not paused.
    fn count_active(&self) -> (active: usize)
        ensures
            active == active_count(self@.endpoints),
    {
        let mut active: usize = 0;
        let mut i: usize = 0;
        assert(self@.endpoints.take(0) =~= Seq::<EndpointView>::empty());
        while i < self.endpoints.len()
            invariant
                active <= i <= self.endpoints.len(),
                active == active_count(self@.endpoints.take(i as int)),
            decreases self.endpoints.len() - i,
        {
            assert(self@.endpoints.take(i + 1).drop_last() =~= self@.endpoints.take(i as int));
            if self.endpoints[i].is_active() {
                active += 1;
            }
            i += 1;
        }
        assert(self@.endpoints.take(self@.endpoints.len() as int) =~= self@.endpoints);
        active
    }

    /// Gives up the branch: records how long the decision took, and collects the
    /// blocks held instead.
    fn conclude(&mut self, decision: ForkDecision, now: Duration, counts: &mut IngestMetrics) -> (chain: Vec<
        BlockRef,
    >)
        requires
            old(self)@.consistent(),
            old(self)@.cursor == old(self)@.endpoints.len(),
            fork_count(old(self)@.endpoints) > 0,
        ensures
            types::block_refs(chain@) == longest_hints(old(self)@.endpoints),
            final(self)@ == old(self)@.given_up(),
            final(self)@.consistent(),
            final(counts)@ == old(self)@.decided_counts(old(counts)@, decision, now@),
    {
        proof {
            lemma_fork_witness(self@.endpoints);
        }
        if let Some(started) = self.state.fork_consensus_started_at {
            record_ingest_fork_consensus_duration(counts, decision.as_str(), now.saturating_sub(started));
        }
        let chain: Vec<BlockRef> = self.extract_fork();
        self.cursor = 0;
        chain
    }

    /// Collects the longest list of blocks held instead, and makes every endpoint
    /// ready to be asked anew.
    fn extract_fork(&mut self) -> (chain: Vec<BlockRef>)
        ensures
            types::block_refs(chain@) == longest_hints(old(self)@.endpoints),
            final(self)@ == old(self)@.given_up().at(old(self)@.cursor),
    {
        self.state.reset_fork_consensus();
        let ghost state = self.state;
        let n: usize = self.endpoints.len();
        let mut chain: Vec<BlockRef> = Vec::new();
        let mut i: usize = 0;
        assert(old(self)@.endpoints.take(0) =~= Seq::<EndpointView>::empty());
        assert(types::block_refs(chain@) =~= longest_hints(old(self)@.endpoints.take(0)));
        while i < n
            invariant
                i <= n,
                n == self.endpoints.len(),
                n == old(self).endpoints.len(),
                self.state == state,
                self.cursor == old(self).cursor,
                types::block_refs(chain@) == longest_hints(old(self)@.endpoints.take(i as int)),
                forall|k: int|
                    0 <= k < i ==> (#[trigger] self.endpoints@[k])@ == (EndpointView {
                        state: EndpointStateView::Ready,
                        ..old(self).endpoints@[k]@
                    }),
                forall|k: int| i <= k < n ==> #[trigger] self.endpoints@[k] == old(self).endpoints@[k],
            decreases n - i,
        {
            let ghost upto = old(self)@.endpoints.take(i + 1);
            assert(upto.drop_last() =~= old(self)@.endpoints.take(i as int));
            assert(upto.last() == old(self).endpoints@[i as int]@);
            let mut former: EndpointState = EndpointState::Ready;
            std::mem::swap(&mut former, &mut self.endpoints[i].state);
            match former {
                EndpointState::Fork { prev_blocks, .. } => {
                    if prev_blocks.len() > chain.len() {
                        chain = prev_blocks;
                    }
                },
                _ => {},
            }
            i += 1;
        }
        assert(old(self)@.endpoints.take(n as int) =~= old(self)@.endpoints);
        assert(self@.endpoints =~= old(self)@.given_up().endpoints);
        chain
    }
}

/// More endpoints never shorten the longest list of blocks held instead.
proof fn lemma_hints_grow(endpoints: Seq<EndpointView>, upto: int)
    requires
        0 <= upto <= endpoints.len(),
    ensures
        longest_hints(endpoints.take(upto)).len() <= longest_hints(endpoints).len(),
    decreases endpoints.len() - upto,
{
    if upto < endpoints.len() {
        assert(endpoints.take(upto + 1).drop_last() =~= endpoints.take(upto));
        lemma_hints_grow(endpoints, upto + 1);
    } else {
        assert(endpoints.take(upto) =~= endpoints);
    }
}

} // verus!
