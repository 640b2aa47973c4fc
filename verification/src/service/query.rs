//! Answering queries.
//!
//! A query that asks for blocks that are not there yet waits for them, as long as
//! not too many are waiting. Reading the dataset, waiting and responding is left to
//! the caller.
use crate::duration::{self, Duration};
use crate::prom;
use crate::service::collectors::QueryExecutorCollector;
use crate::service::metrics::{
    report_query_too_many_data_waiters_error, ServiceMetrics, ServiceMetricsView, SlowResponseConfig, SlowResponseView,
};
use crate::types::{self, BlockNumber, BlockRef, BlockRefView, DatasetKind};
use vstd::prelude::*;

verus! {

/// How a query ended.
#[derive(Debug)]
pub struct QueryOutcome<R, E> {
    pub response: Result<R, E>,
    /// Whether it was let wait for data.
    pub long_poll: bool,
}

/// What matters of a query before it is run.
#[derive(Debug)]
pub struct QueryHead {
    pub kind: DatasetKind,
    pub first_block: BlockNumber,
    /// The hash that the block before the first one is expected to have.
    pub parent_block_hash: Option<String>,
}

/// What matters of a dataset before a query is run on it.
#[derive(Debug)]
pub struct DatasetHead {
    pub kind: DatasetKind,
    pub head: Option<BlockRef>,
    pub finalized_head: Option<BlockRef>,
}

/// Why a query is not run.
#[derive(Debug)]
pub enum QueryError {
    /// It is for another kind of dataset.
    KindMismatch { query_kind: DatasetKind, dataset_kind: DatasetKind },
    /// It was to go on from another block than the one there is.
    UnexpectedBaseBlock { prev_blocks: Vec<BlockRef>, expected_hash: String },
    /// Too many queries are waiting for data.
    Busy,
    /// The data did not come in time.
    AboveTheHead { finalized_head: Option<BlockRef> },
}

/// What a [`QueryError`] says.
pub enum QueryErrorView {
    KindMismatch { query_kind: Seq<char>, dataset_kind: Seq<char> },
    UnexpectedBaseBlock { prev_blocks: Seq<BlockRefView>, expected_hash: Seq<char> },
    Busy,
    AboveTheHead { finalized_head: Option<BlockRefView> },
}

impl View for QueryError {
    type V = QueryErrorView;

    open spec fn view(&self) -> QueryErrorView {
        match self {
            QueryError::KindMismatch { query_kind, dataset_kind } => QueryErrorView::KindMismatch {
                query_kind: query_kind@,
                dataset_kind: dataset_kind@,
            },
            QueryError::UnexpectedBaseBlock { prev_blocks, expected_hash } => QueryErrorView::UnexpectedBaseBlock {
                prev_blocks: types::block_refs(prev_blocks@),
                expected_hash: expected_hash@,
            },
            QueryError::Busy => QueryErrorView::Busy,
            QueryError::AboveTheHead { finalized_head } => QueryErrorView::AboveTheHead {
                finalized_head: types::block_ref_view(*finalized_head),
            },
        }
    }
}

/// How a query goes on.
#[derive(Debug)]
pub enum QueryStep {
    /// It is not run.
    Refuse(QueryError),
    /// It waits for the block `first_block`, a final one if `finalized`, no longer
    /// than `timeout`; then [`QueryService::finish_wait`] says how it goes on.
    Wait { first_block: BlockNumber, finalized: bool, timeout: Duration },
    /// It is run.
    Respond,
}

/// How long a query waits for data, in nanoseconds.
pub open spec fn wait_limit() -> nat {
    5 * duration::NANOS_PER_SEC as nat
}

/// The newest block that a query can be answered from.
pub open spec fn target_head(dataset: DatasetHead, finalized: bool) -> Option<BlockRefView> {
    if finalized {
        types::block_ref_view(dataset.finalized_head)
    } else {
        types::block_ref_view(dataset.head)
    }
}

/// Whether a query has to wait for data: its first block lies above the head. If it
/// lies right above, the head must be the parent that the query expects.
pub open spec fn long_poll_of(dataset: DatasetHead, query: QueryHead, finalized: bool) -> Result<bool, QueryErrorView> {
    if dataset.kind@ != query.kind@ {
        Err(QueryErrorView::KindMismatch { query_kind: query.kind@, dataset_kind: dataset.kind@ })
    } else {
        match (target_head(dataset, finalized), query.parent_block_hash) {
            (Some(head), _) if head.number >= query.first_block => Ok(false),
            (Some(head), Some(parent_hash)) if head.number + 1 == query.first_block && head.hash != parent_hash@ => Err(
                QueryErrorView::UnexpectedBaseBlock { prev_blocks: seq![head], expected_hash: parent_hash@ },
            ),
            _ => Ok(true),
        }
    }
}

/// A bound on how many queries wait for data at a time.
#[derive(Debug)]
pub struct WaitSlots {
    waiters: usize,
    limit: usize,
}

/// What [`WaitSlots`] hold.
pub struct WaitSlotsView {
    pub waiters: nat,
    pub limit: nat,
}

impl View for WaitSlots {
    type V = WaitSlotsView;

    closed spec fn view(&self) -> WaitSlotsView {
        WaitSlotsView { waiters: self.waiters as nat, limit: self.limit as nat }
    }
}

impl WaitSlots {
    #[verifier::type_invariant]
    closed spec fn within_limit(self) -> bool {
        self.waiters <= self.limit
    }

    /// Slots for `limit` queries.
    pub fn new(limit: usize) -> (slots: Self)
        ensures
            slots@ == (WaitSlotsView { waiters: 0, limit: limit as nat }),
    {
        WaitSlots { waiters: 0, limit }
    }

    /// How many queries are waiting.
    pub fn waiters(&self) -> (n: usize)
        ensures
            n == self@.waiters,
            n <= self@.limit,
    {
        proof {
            use_type_invariant(self);
        }
        self.waiters
    }

    /// Takes a slot, if there is one; that there was none is counted.
    pub fn get(&mut self, metrics: &mut ServiceMetrics) -> (taken: bool)
        ensures
            taken == (old(self)@.waiters < old(self)@.limit),
            final(self)@ == (WaitSlotsView {
                waiters: if taken {
                    old(self)@.waiters + 1
                } else {
                    old(self)@.waiters
                },
                ..old(self)@
            }),
            taken ==> *final(metrics) == *old(metrics),
            !taken ==> final(metrics)@ == (ServiceMetricsView {
                query_error_too_many_data_waiters: prom::next_count(old(metrics)@.query_error_too_many_data_waiters),
                ..old(metrics)@
            }),
    {
        if self.waiters < self.limit {
            self.waiters = self.waiters + 1;
            true
        } else {
            report_query_too_many_data_waiters_error(metrics);
            false
        }
    }

    /// Gives a slot back.
    pub fn release(&mut self)
        requires
            old(self)@.waiters > 0,
        ensures
            final(self)@ == (WaitSlotsView { waiters: (old(self)@.waiters - 1) as nat, ..old(self)@ }),
    {
        proof {
            use_type_invariant(&*self);
        }
        self.waiters = self.waiters - 1;
    }
}

/// The settings of a query service.
#[derive(Debug)]
pub struct QueryServiceBuilder<D> {
    db: D,
    max_data_waiters: usize,
    max_pending_tasks: usize,
    urgency: usize,
    slow_response_config: SlowResponseConfig,
}

/// What a [`QueryServiceBuilder`] says.
pub struct QuerySettings {
    pub max_data_waiters: usize,
    pub max_pending_tasks: usize,
    pub urgency: usize,
    pub slow_response_config: SlowResponseView,
}

impl<D> QueryServiceBuilder<D> {
    /// The database.
    pub closed spec fn database(self) -> D {
        self.db
    }
}

impl<D> View for QueryServiceBuilder<D> {
    type V = QuerySettings;

    closed spec fn view(&self) -> QuerySettings {
        QuerySettings {
            max_data_waiters: self.max_data_waiters,
            max_pending_tasks: self.max_pending_tasks,
            urgency: self.urgency,
            slow_response_config: self.slow_response_config@,
        }
    }
}

impl<D> QueryServiceBuilder<D> {
    /// The default settings, where queries run on that many threads.
    pub fn new(db: D, pool_threads: usize) -> (builder: Self)
        requires
            pool_threads * 200 <= usize::MAX,
        ensures
            builder.database() == db,
            builder@ == (QuerySettings {
                max_data_waiters: 64_000,
                max_pending_tasks: (pool_threads * 200) as usize,
                urgency: 500,
                slow_response_config: SlowResponseView {
                    ttfb_threshold: 2_000_000_000,
                    min_bytes_per_second: 50_000,
                },
            }),
    {
        QueryServiceBuilder {
            db,
            max_data_waiters: 64_000,
            max_pending_tasks: pool_threads * 200,
            urgency: 500,
            slow_response_config: SlowResponseConfig::default(),
        }
    }

    /// The most queries that wait for new blocks.
    pub fn set_max_data_waiters(&mut self, count: usize) -> (builder: &mut Self)
        ensures
            builder@ == (QuerySettings { max_data_waiters: count, ..old(self)@ }),
            builder.database() == old(self).database(),
            *final(self) == *final(builder),
    {
        self.max_data_waiters = count;
        self
    }

    /// The most query tasks that are pending. Beyond that streams end, and new
    /// queries are told that the service is busy.
    pub fn set_max_pending_query_tasks(&mut self, count: usize) -> (builder: &mut Self)
        ensures
            builder@ == (QuerySettings { max_pending_tasks: count, ..old(self)@ }),
            builder.database() == old(self).database(),
            *final(self) == *final(builder),
    {
        self.max_pending_tasks = count;
        self
    }

    /// Roughly the longest time, in milliseconds, that a query task waits for its
    /// turn.
    pub fn set_urgency(&mut self, ms: usize) -> (builder: &mut Self)
        ensures
            builder@ == (QuerySettings { urgency: ms, ..old(self)@ }),
            builder.database() == old(self).database(),
            *final(self) == *final(builder),
    {
        self.urgency = ms;
        self
    }

    /// When a response is slow.
    pub fn set_slow_response_config(&mut self, config: SlowResponseConfig) -> (builder: &mut Self)
        ensures
            builder@ == (QuerySettings { slow_response_config: config@, ..old(self)@ }),
            builder.database() == old(self).database(),
            *final(self) == *final(builder),
    {
        self.slow_response_config = config;
        self
    }
}

impl<D: Clone> QueryServiceBuilder<D> {
    /// A service with these settings.
    pub fn build(&self) -> (service: QueryService<D>)
        ensures
            service@ == (QueryServiceView {
                executor: QueryExecutor {
                    max_pending_tasks: self@.max_pending_tasks,
                    urgency: self@.urgency,
                },
                wait_slots: WaitSlotsView { waiters: 0, limit: self@.max_data_waiters as nat },
                slow_response_config: self@.slow_response_config,
            }),
            cloned(self.database(), service.database()),
    {
        QueryService {
            db: self.db.clone(),
            executor: QueryExecutor { max_pending_tasks: self.max_pending_tasks, urgency: self.urgency },
            wait_slots: WaitSlots::new(self.max_data_waiters),
            slow_response_config: self.slow_response_config,
        }
    }
}

/// The settings that query tasks are run with.
#[derive(Clone, Copy, Debug, PartialEq, Eq, Structural)]
pub struct QueryExecutor {
    pub max_pending_tasks: usize,
    pub urgency: usize,
}

/// Answers queries.
#[derive(Debug)]
pub struct QueryService<D> {
    db: D,
    executor: QueryExecutor,
    wait_slots: WaitSlots,
    slow_response_config: SlowResponseConfig,
}

/// What a [`QueryService`] holds.
pub struct QueryServiceView {
    pub executor: QueryExecutor,
    pub wait_slots: WaitSlotsView,
    pub slow_response_config: SlowResponseView,
}

impl<D> QueryService<D> {
    /// The database.
    pub closed spec fn database(self) -> D {
        self.db
    }
}

impl<D> View for QueryService<D> {
    type V = QueryServiceView;

    closed spec fn view(&self) -> QueryServiceView {
        QueryServiceView {
            executor: self.executor,
            wait_slots: self.wait_slots@,
            slow_response_config: self.slow_response_config@,
        }
    }
}

impl<D> QueryService<D> {
    /// The default settings, where queries run on that many threads.
    pub fn builder(db: D, pool_threads: usize) -> (builder: QueryServiceBuilder<D>)
        requires
            pool_threads * 200 <= usize::MAX,
        ensures
            builder.database() == db,
            builder@ == (QuerySettings {
                max_data_waiters: 64_000,
                max_pending_tasks: (pool_threads * 200) as usize,
                urgency: 500,
                slow_response_config: SlowResponseView {
                    ttfb_threshold: 2_000_000_000,
                    min_bytes_per_second: 50_000,
                },
            }),
    {
        QueryServiceBuilder::new(db, pool_threads)
    }

    /// The database.
    pub fn db(&self) -> (db: &D)
        ensures
            *db == self.database(),
    {
        &self.db
    }

    /// The settings that query tasks are run with.
    pub fn executor(&self) -> (executor: QueryExecutor)
        ensures
            executor == self@.executor,
    {
        self.executor
    }

    /// When a response is slow.
    pub fn slow_response_config(&self) -> (config: SlowResponseConfig)
        ensures
            config@ == self@.slow_response_config,
    {
        self.slow_response_config
    }

    /// Begins a query.
    pub fn query(&mut self, dataset: &DatasetHead, query: &QueryHead, metrics: &mut ServiceMetrics) -> (r: (
        QueryStep,
        bool,
    ))
        ensures
            query_begun(
                old(self)@,
                final(self)@,
                old(metrics)@,
                final(metrics)@,
                long_poll_of(*dataset, *query, false),
                query.first_block,
                false,
                r,
            ),
            final(self).database() == old(self).database(),
    {
        self.query_internal(dataset, query, false, metrics)
    }

    /// Begins a query that is answered from final blocks alone.
    pub fn query_finalized(&mut self, dataset: &DatasetHead, query: &QueryHead, metrics: &mut ServiceMetrics) -> (r: (
        QueryStep,
        bool,
    ))
        ensures
            query_begun(
                old(self)@,
                final(self)@,
                old(metrics)@,
                final(metrics)@,
                long_poll_of(*dataset, *query, true),
                query.first_block,
                true,
                r,
            ),
            final(self).database() == old(self).database(),
    {
        self.query_internal(dataset, query, true, metrics)
    }

    /// Begins a query: how it goes on, and whether it waits for data. One that is
    /// refused a slot does not wait.
    fn query_internal(
        &mut self,
        dataset: &DatasetHead,
        query: &QueryHead,
        finalized: bool,
        metrics: &mut ServiceMetrics,
    ) -> (r: (QueryStep, bool))
        ensures
            query_begun(
                old(self)@,
                final(self)@,
                old(metrics)@,
                final(metrics)@,
                long_poll_of(*dataset, *query, finalized),
                query.first_block,
                finalized,
                r,
            ),
            final(self).database() == old(self).database(),
    {
        let long_poll: bool = match Self::is_long_poll(dataset, query, finalized) {
            Ok(long_poll) => long_poll,
            Err(error) => {
                return (QueryStep::Refuse(error), false);
            },
        };
        if !long_poll {
            return (QueryStep::Respond, false);
        }
        let mut slots: WaitSlots = WaitSlots::new(0);
        std::mem::swap(&mut slots, &mut self.wait_slots);
        let taken: bool = slots.get(metrics);
        self.wait_slots = slots;
        if !taken {
            return (QueryStep::Refuse(QueryError::Busy), false);
        }
        (
            QueryStep::Wait { first_block: query.first_block, finalized, timeout: Duration::from_secs(5) },
            true,
        )
    }

    /// Goes on after a wait: `arrived` says whether the data came in time.
    pub fn finish_wait(&mut self, arrived: bool) -> (r: Result<(), QueryError>)
        requires
            old(self)@.wait_slots.waiters > 0,
        ensures
            final(self)@ == (QueryServiceView {
                wait_slots: WaitSlotsView {
                    waiters: (old(self)@.wait_slots.waiters - 1) as nat,
                    ..old(self)@.wait_slots
                },
                ..old(self)@
            }),
            final(self).database() == old(self).database(),
            r is Ok == arrived,
            r matches Err(e) ==> e@ == (QueryErrorView::AboveTheHead { finalized_head: None }),
    {
        let mut slots: WaitSlots = WaitSlots::new(0);
        std::mem::swap(&mut slots, &mut self.wait_slots);
        slots.release();
        self.wait_slots = slots;
        if arrived {
            Ok(())
        } else {
            Err(QueryError::AboveTheHead { finalized_head: None })
        }
    }

    /// Whether any query is waiting for data.
    pub fn has_waiters(&self) -> (b: bool)
        ensures
            b == (self@.wait_slots.waiters > 0),
    {
        self.wait_slots.waiters() > 0
    }

    /// Whether a query has to wait for data.
    pub fn is_long_poll(dataset: &DatasetHead, query: &QueryHead, finalized: bool) -> (r: Result<bool, QueryError>)
        ensures
            match r {
                Ok(long_poll) => long_poll_of(*dataset, *query, finalized) == Ok::<bool, QueryErrorView>(long_poll),
                Err(e) => long_poll_of(*dataset, *query, finalized) == Err::<bool, QueryErrorView>(e@),
            },
    {
        if !dataset.kind.same(&query.kind) {
            return Err(
                QueryError::KindMismatch { query_kind: query.kind.clone(), dataset_kind: dataset.kind.clone() },
            );
        }
        let target: &Option<BlockRef> = if finalized {
            &dataset.finalized_head
        } else {
            &dataset.head
        };
        match target {
            Some(head) => {
                if head.number >= query.first_block {
                    return Ok(false);
                }
                if head.number + 1 == query.first_block {
                    match &query.parent_block_hash {
                        Some(parent_hash) => {
                            if !(head.hash == *parent_hash) {
                                let mut prev_blocks: Vec<BlockRef> = Vec::new();
                                prev_blocks.push(head.clone());
                                assert(types::block_refs(prev_blocks@) =~= seq![head@]);
                                return Err(
                                    QueryError::UnexpectedBaseBlock {
                                        prev_blocks,
                                        expected_hash: parent_hash.clone(),
                                    },
                                );
                            }
                        },
                        None => {},
                    }
                }
                Ok(true)
            },
            None => Ok(true),
        }
    }

    /// Shows that many active queries.
    pub fn metrics_collector(&self, active_queries: u64) -> (collector: QueryExecutorCollector)
        ensures
            collector == (QueryExecutorCollector { active_queries }),
    {
        QueryExecutorCollector { active_queries }
    }
}

/// How a query begins: it is refused, waits in a slot of its own, or is answered at
/// once.
pub open spec fn query_begun(
    before: QueryServiceView,
    after: QueryServiceView,
    counts_before: ServiceMetricsView,
    counts_after: ServiceMetricsView,
    long_poll: Result<bool, QueryErrorView>,
    first_block: BlockNumber,
    finalized: bool,
    r: (QueryStep, bool),
) -> bool {
    match long_poll {
        Err(error) => {
            &&& r.0 matches QueryStep::Refuse(e) && e@ == error
            &&& !r.1
            &&& after == before
            &&& counts_after == counts_before
        },
        Ok(false) => {
            &&& r.0 is Respond
            &&& !r.1
            &&& after == before
            &&& counts_after == counts_before
        },
        Ok(true) => {
            &&& if before.wait_slots.waiters < before.wait_slots.limit {
                &&& r.1
                &&& r.0 matches QueryStep::Wait { first_block: b, finalized: f, timeout } && b == first_block && f
                    == finalized && timeout@ == wait_limit()
                &&& after == (QueryServiceView {
                    wait_slots: WaitSlotsView { waiters: before.wait_slots.waiters + 1, ..before.wait_slots },
                    ..before
                })
                &&& counts_after == counts_before
            } else {
                &&& r.0 matches QueryStep::Refuse(e) && e@ is Busy
                &&& !r.1
                &&& after == before
                &&& counts_after == (ServiceMetricsView {
                    query_error_too_many_data_waiters: prom::next_count(
                        counts_before.query_error_too_many_data_waiters,
                    ),
                    ..counts_before
                })
            }
        },
    }
}

} // verus!
