//! What serving requests counts.
use crate::data_source::metrics::{self, IngestFamily, IngestMetrics};
use crate::duration::{self, Duration};
use crate::prom::{
    copy_labels, count_event, count_one, new_counter, new_family, new_registry, read_count, read_counter,
    register_counter, register_distribution, register_family, sub_registry, two_labels,
};
use crate::prom::{self, CounterFamily, DistributionFamily, LabelKey, Labels, Registration};
use crate::service::collectors;
use crate::text::same_text;
use crate::types::DatasetId;
use prometheus_client::metrics::counter::Counter;
use prometheus_client::registry::Registry;
use vstd::prelude::*;

verus! {

/// Streams with fewer bytes are too short to be called slow.
pub const MIN_SLOW_RESPONSE_BYTES: u64 = 10_000;

/// When a response is slow.
#[derive(Clone, Copy, Debug)]
pub struct SlowResponseConfig {
    ttfb_threshold: Duration,
    min_bytes_per_second: u64,
}

/// What a [`SlowResponseConfig`] says, the time in nanoseconds.
pub struct SlowResponseView {
    pub ttfb_threshold: nat,
    pub min_bytes_per_second: u64,
}

impl View for SlowResponseConfig {
    type V = SlowResponseView;

    closed spec fn view(&self) -> SlowResponseView {
        SlowResponseView {
            ttfb_threshold: self.ttfb_threshold@,
            min_bytes_per_second: self.min_bytes_per_second,
        }
    }
}

impl SlowResponseConfig {
    /// A response is slow if its first byte takes longer than `ttfb_threshold_ms`
    /// milliseconds, or its stream delivers less than `min_bytes_per_second`.
    pub fn new(ttfb_threshold_ms: u64, min_bytes_per_second: u64) -> (config: Self)
        ensures
            config@ == (SlowResponseView {
                ttfb_threshold: ttfb_threshold_ms as nat * duration::NANOS_PER_MILLI as nat,
                min_bytes_per_second,
            }),
    {
        SlowResponseConfig {
            ttfb_threshold: Duration::from_millis(ttfb_threshold_ms),
            min_bytes_per_second,
        }
    }

    /// The least number of bytes per second that is not slow.
    pub fn min_bytes_per_second(&self) -> (n: u64)
        ensures
            n == self@.min_bytes_per_second,
    {
        self.min_bytes_per_second
    }
}

impl Default for SlowResponseConfig {
    fn default() -> (config: Self)
        ensures
            config@ == (SlowResponseView { ttfb_threshold: 2_000_000_000, min_bytes_per_second: 50_000 }),
    {
        SlowResponseConfig::new(2_000, 50_000)
    }
}

/// The metrics of the service.
#[derive(Clone, Copy, Debug, PartialEq, Eq, Structural)]
pub enum Metric {
    QueryErrorTooManyTasks,
    QueryErrorTooManyDataWaiters,
    HttpStatus,
    HttpTtfb,
    SlowResponses,
    StreamBytes,
    StreamBlocks,
    StreamChunks,
    StreamBytesPerSecond,
    StreamBlocksPerSecond,
    StreamDurations,
    QueriedBlocks,
    QueriedChunks,
    CompletedQueries,
}

impl Metric {
    /// The name of the metric, within the service.
    pub open spec fn name(self) -> Seq<char> {
        match self {
            Metric::QueryErrorTooManyTasks => "query_error_too_many_tasks"@,
            Metric::QueryErrorTooManyDataWaiters => "query_error_too_many_data_waiters"@,
            Metric::HttpStatus => "http_status"@,
            Metric::HttpTtfb => "http_seconds_to_first_byte"@,
            Metric::SlowResponses => "slow_responses"@,
            Metric::StreamBytes => "stream_bytes"@,
            Metric::StreamBlocks => "stream_blocks"@,
            Metric::StreamChunks => "stream_chunks"@,
            Metric::StreamBytesPerSecond => "stream_bytes_per_second"@,
            Metric::StreamBlocksPerSecond => "stream_blocks_per_second"@,
            Metric::StreamDurations => "stream_duration_seconds"@,
            Metric::QueriedBlocks => "queried_blocks"@,
            Metric::QueriedChunks => "queried_chunks"@,
            Metric::CompletedQueries => "completed_queries"@,
        }
    }

    /// What the metric shows.
    pub open spec fn help(self) -> Seq<char> {
        match self {
            Metric::QueryErrorTooManyTasks => "Number of query tasks rejected due to task queue overflow"@,
            Metric::QueryErrorTooManyDataWaiters =>
                "Number of queries rejected, because data is not yet available and there are too many data waiters"@,
            Metric::HttpStatus => "Number of sent HTTP responses"@,
            Metric::HttpTtfb => "Time to first byte of HTTP responses"@,
            Metric::SlowResponses =>
                "Number of non-long-poll responses that exceeded a latency or throughput threshold"@,
            Metric::StreamBytes => "Number of bytes per stream"@,
            Metric::StreamBlocks => "Number of blocks per stream"@,
            Metric::StreamChunks => "Number of chunks per stream"@,
            Metric::StreamBytesPerSecond => "Completed streams bandwidth"@,
            Metric::StreamBlocksPerSecond => "Completed streams speed in blocks"@,
            Metric::StreamDurations => "Durations of completed streams"@,
            Metric::QueriedBlocks => "Number of blocks per running query"@,
            Metric::QueriedChunks => "Number of chunks per running query"@,
            Metric::CompletedQueries => "Number of completed queries"@,
        }
    }

    /// Whether the metric is a count, rather than a distribution.
    pub open spec fn is_count(self) -> bool {
        match self {
            Metric::QueryErrorTooManyTasks
            | Metric::QueryErrorTooManyDataWaiters
            | Metric::HttpStatus
            | Metric::SlowResponses
            | Metric::CompletedQueries => true,
            _ => false,
        }
    }

    /// The name of the metric, within the service.
    pub fn as_str(self) -> (name: &'static str)
        ensures
            name@ == self.name(),
    {
        match self {
            Metric::QueryErrorTooManyTasks => "query_error_too_many_tasks",
            Metric::QueryErrorTooManyDataWaiters => "query_error_too_many_data_waiters",
            Metric::HttpStatus => "http_status",
            Metric::HttpTtfb => "http_seconds_to_first_byte",
            Metric::SlowResponses => "slow_responses",
            Metric::StreamBytes => "stream_bytes",
            Metric::StreamBlocks => "stream_blocks",
            Metric::StreamChunks => "stream_chunks",
            Metric::StreamBytesPerSecond => "stream_bytes_per_second",
            Metric::StreamBlocksPerSecond => "stream_blocks_per_second",
            Metric::StreamDurations => "stream_duration_seconds",
            Metric::QueriedBlocks => "queried_blocks",
            Metric::QueriedChunks => "queried_chunks",
            Metric::CompletedQueries => "completed_queries",
        }
    }

    /// What the metric shows.
    pub fn help_text(self) -> (help: &'static str)
        ensures
            help@ == self.help(),
    {
        match self {
            Metric::QueryErrorTooManyTasks => "Number of query tasks rejected due to task queue overflow",
            Metric::QueryErrorTooManyDataWaiters =>
                "Number of queries rejected, because data is not yet available and there are too many data waiters",
            Metric::HttpStatus => "Number of sent HTTP responses",
            Metric::HttpTtfb => "Time to first byte of HTTP responses",
            Metric::SlowResponses =>
                "Number of non-long-poll responses that exceeded a latency or throughput threshold",
            Metric::StreamBytes => "Number of bytes per stream",
            Metric::StreamBlocks => "Number of blocks per stream",
            Metric::StreamChunks => "Number of chunks per stream",
            Metric::StreamBytesPerSecond => "Completed streams bandwidth",
            Metric::StreamBlocksPerSecond => "Completed streams speed in blocks",
            Metric::StreamDurations => "Durations of completed streams",
            Metric::QueriedBlocks => "Number of blocks per running query",
            Metric::QueriedChunks => "Number of chunks per running query",
            Metric::CompletedQueries => "Number of completed queries",
        }
    }
}

/// The metrics in the order in which they are registered.
pub open spec fn registry_order() -> Seq<Metric> {
    seq![
        Metric::QueryErrorTooManyTasks,
        Metric::QueryErrorTooManyDataWaiters,
        Metric::HttpStatus,
        Metric::HttpTtfb,
        Metric::SlowResponses,
        Metric::StreamBytes,
        Metric::StreamBlocks,
        Metric::StreamChunks,
        Metric::StreamBytesPerSecond,
        Metric::StreamBlocksPerSecond,
        Metric::StreamDurations,
        Metric::QueriedBlocks,
        Metric::QueriedChunks,
        Metric::CompletedQueries,
    ]
}

/// The metrics in the order in which they are registered.
pub fn registered_metrics() -> (order: Vec<Metric>)
    ensures
        order@ == registry_order(),
{
    let order: Vec<Metric> = vec![
        Metric::QueryErrorTooManyTasks,
        Metric::QueryErrorTooManyDataWaiters,
        Metric::HttpStatus,
        Metric::HttpTtfb,
        Metric::SlowResponses,
        Metric::StreamBytes,
        Metric::StreamBlocks,
        Metric::StreamChunks,
        Metric::StreamBytesPerSecond,
        Metric::StreamBlocksPerSecond,
        Metric::StreamDurations,
        Metric::QueriedBlocks,
        Metric::QueriedChunks,
        Metric::CompletedQueries,
    ];
    assert(order@ =~= registry_order());
    order
}

/// The counts of the service, and the times to first byte that wait to be observed.
pub struct ServiceMetrics {
    query_error_too_many_tasks: Counter,
    query_error_too_many_data_waiters: Counter,
    completed_queries: Counter,
    http_status: CounterFamily,
    slow_responses: CounterFamily,
    http_ttfb: Vec<(Labels, Duration)>,
}

/// What [`ServiceMetrics`] hold.
pub struct ServiceMetricsView {
    pub query_error_too_many_tasks: u64,
    pub query_error_too_many_data_waiters: u64,
    pub completed_queries: u64,
    pub http_status: Map<LabelKey, u64>,
    pub slow_responses: Map<LabelKey, u64>,
    pub http_ttfb: Seq<(LabelKey, nat)>,
    /// Which counters these are.
    pub counters: ServiceCounters,
}

/// Which counters [`ServiceMetrics`] keep.
pub struct ServiceCounters {
    pub query_error_too_many_tasks: int,
    pub query_error_too_many_data_waiters: int,
    pub completed_queries: int,
    pub http_status: int,
    pub slow_responses: int,
}

impl ServiceCounters {
    /// The counters of a metric that is a count.
    pub open spec fn of(self, metric: Metric) -> int
        recommends
            metric.is_count(),
    {
        match metric {
            Metric::QueryErrorTooManyTasks => self.query_error_too_many_tasks,
            Metric::QueryErrorTooManyDataWaiters => self.query_error_too_many_data_waiters,
            Metric::HttpStatus => self.http_status,
            Metric::SlowResponses => self.slow_responses,
            _ => self.completed_queries,
        }
    }
}

impl View for ServiceMetrics {
    type V = ServiceMetricsView;

    closed spec fn view(&self) -> ServiceMetricsView {
        ServiceMetricsView {
            query_error_too_many_tasks: prom::counter_value(self.query_error_too_many_tasks),
            query_error_too_many_data_waiters: prom::counter_value(self.query_error_too_many_data_waiters),
            completed_queries: prom::counter_value(self.completed_queries),
            http_status: self.http_status@,
            slow_responses: self.slow_responses@,
            http_ttfb: metrics::observation_views(self.http_ttfb@),
            counters: ServiceCounters {
                query_error_too_many_tasks: prom::counter_itself(self.query_error_too_many_tasks),
                query_error_too_many_data_waiters: prom::counter_itself(self.query_error_too_many_data_waiters),
                completed_queries: prom::counter_itself(self.completed_queries),
                http_status: prom::family_counters(self.http_status),
                slow_responses: prom::family_counters(self.slow_responses),
            },
        }
    }
}

/// The label set `{dataset, reason}` of a slow response.
pub open spec fn slow_response_key(dataset: Seq<char>, reason: Seq<char>) -> LabelKey {
    seq![("dataset"@, dataset), ("reason"@, reason)]
}

/// `true` or `false` as text.
pub open spec fn bool_text(b: bool) -> Seq<char> {
    if b {
        "true"@
    } else {
        "false"@
    }
}

impl ServiceMetricsView {
    /// With one more slow response.
    pub open spec fn with_slow_response(self, dataset: Seq<char>, reason: Seq<char>) -> ServiceMetricsView {
        ServiceMetricsView {
            slow_responses: prom::counted(self.slow_responses, slow_response_key(dataset, reason)),
            ..self
        }
    }

    /// With one more response, whose first byte took that many nanoseconds. It is
    /// slow if that is longer than the threshold, unless it had to wait for data; of
    /// which dataset it is, the label `dataset_name` says.
    pub open spec fn with_response(
        self,
        labels: LabelKey,
        to_first_byte: nat,
        long_poll: bool,
        config: SlowResponseView,
    ) -> ServiceMetricsView {
        let counted = ServiceMetricsView {
            http_status: prom::counted(self.http_status, labels),
            http_ttfb: self.http_ttfb.push((labels.push(("long_poll"@, bool_text(long_poll))), to_first_byte)),
            ..self
        };
        match collectors::beside(labels, "dataset_name"@) {
            Some(dataset) if !long_poll && to_first_byte > config.ttfb_threshold => counted.with_slow_response(
                dataset,
                "ttfb"@,
            ),
            _ => counted,
        }
    }
}

impl ServiceMetrics {
    /// Metrics that have counted nothing.
    pub fn new() -> (metrics: Self)
        ensures
            metrics@ == (ServiceMetricsView {
                query_error_too_many_tasks: 0,
                query_error_too_many_data_waiters: 0,
                completed_queries: 0,
                http_status: Map::empty(),
                slow_responses: Map::empty(),
                http_ttfb: Seq::empty(),
                counters: metrics@.counters,
            }),
    {
        let metrics: ServiceMetrics = ServiceMetrics {
            query_error_too_many_tasks: new_counter(),
            query_error_too_many_data_waiters: new_counter(),
            completed_queries: new_counter(),
            http_status: new_family(),
            slow_responses: new_family(),
            http_ttfb: Vec::new(),
        };
        proof {
            prom::lemma_no_counts(metrics.http_status@);
            prom::lemma_no_counts(metrics.slow_responses@);
            assert(metrics::observation_views(metrics.http_ttfb@) =~= Seq::empty());
        }
        metrics
    }

    /// How many query tasks were rejected because there were too many.
    pub fn query_error_too_many_tasks(&self) -> (n: u64)
        ensures
            n == self@.query_error_too_many_tasks,
    {
        read_counter(&self.query_error_too_many_tasks)
    }

    /// How many queries were rejected because too many were waiting for data.
    pub fn query_error_too_many_data_waiters(&self) -> (n: u64)
        ensures
            n == self@.query_error_too_many_data_waiters,
    {
        read_counter(&self.query_error_too_many_data_waiters)
    }

    /// How many queries were completed.
    pub fn completed_queries(&self) -> (n: u64)
        ensures
            n == self@.completed_queries,
    {
        read_counter(&self.completed_queries)
    }

    /// How many responses were sent under these labels.
    pub fn http_status(&self, labels: &Labels) -> (n: u64)
        ensures
            n == prom::count_of(self@.http_status, prom::label_key(labels@)),
    {
        read_count(&self.http_status, labels).unwrap_or(0)
    }

    /// How many responses of a dataset were slow for that reason.
    pub fn slow_responses(&self, dataset: &str, reason: &str) -> (n: u64)
        ensures
            n == prom::count_of(self@.slow_responses, slow_response_key(dataset@, reason@)),
    {
        let labels: Labels = two_labels("dataset", dataset, "reason", reason);
        read_count(&self.slow_responses, &labels).unwrap_or(0)
    }

    /// Hands out the times to first byte taken since the last call, oldest first.
    pub fn take_http_ttfb(&mut self) -> (observations: Vec<(Labels, Duration)>)
        ensures
            metrics::observation_views(observations@) == old(self)@.http_ttfb,
            final(self)@ == (ServiceMetricsView { http_ttfb: Seq::empty(), ..old(self)@ }),
    {
        let mut observations: Vec<(Labels, Duration)> = Vec::new();
        observations.append(&mut self.http_ttfb);
        assert(metrics::observation_views(self.http_ttfb@) =~= Seq::empty());
        assert(observations@ =~= old(self).http_ttfb@);
        observations
    }

    /// Counts a completed query.
    pub fn report_completed_query(&mut self)
        ensures
            final(self)@ == (ServiceMetricsView {
                completed_queries: prom::next_count(old(self)@.completed_queries),
                ..old(self)@
            }),
    {
        count_one(&mut self.completed_queries);
    }

    /// Registers a count. Of a distribution it says that it is none.
    pub fn register(&self, metric: Metric, registry: &mut Registry) -> (done: bool)
        ensures
            done == metric.is_count(),
            done ==> prom::registered(*final(registry)) == prom::registered(*old(registry)).push(
                prom::registration(metric.name(), metric.help(), self@.counters.of(metric)),
            ),
            prom::registry_prefix(*final(registry)) == prom::registry_prefix(*old(registry)),
            done ==> prom::sub_registries(*final(registry)) == prom::sub_registries(*old(registry)),
            !done ==> *final(registry) == *old(registry),
    {
        let name: &'static str = metric.as_str();
        let help: &'static str = metric.help_text();
        match metric {
            Metric::QueryErrorTooManyTasks => {
                register_counter(registry, name, help, &self.query_error_too_many_tasks);
                true
            },
            Metric::QueryErrorTooManyDataWaiters => {
                register_counter(registry, name, help, &self.query_error_too_many_data_waiters);
                true
            },
            Metric::HttpStatus => {
                register_family(registry, name, help, &self.http_status);
                true
            },
            Metric::SlowResponses => {
                register_family(registry, name, help, &self.slow_responses);
                true
            },
            Metric::CompletedQueries => {
                register_counter(registry, name, help, &self.completed_queries);
                true
            },
            _ => false,
        }
    }
}

/// The distributions of the service. What they observe is left to the caller.
pub struct Distributions {
    pub http_ttfb: DistributionFamily,
    pub stream_bytes: DistributionFamily,
    pub stream_blocks: DistributionFamily,
    pub stream_chunks: DistributionFamily,
    pub stream_bytes_per_second: DistributionFamily,
    pub stream_blocks_per_second: DistributionFamily,
    pub stream_durations: DistributionFamily,
    pub queried_blocks: DistributionFamily,
    pub queried_chunks: DistributionFamily,
}

impl Distributions {
    /// The family of a metric that is a distribution.
    pub open spec fn of(self, metric: Metric) -> int
        recommends
            !metric.is_count(),
    {
        prom::family_distributions(
            match metric {
                Metric::HttpTtfb => self.http_ttfb,
                Metric::StreamBytes => self.stream_bytes,
                Metric::StreamBlocks => self.stream_blocks,
                Metric::StreamChunks => self.stream_chunks,
                Metric::StreamBytesPerSecond => self.stream_bytes_per_second,
                Metric::StreamBlocksPerSecond => self.stream_blocks_per_second,
                Metric::StreamDurations => self.stream_durations,
                Metric::QueriedBlocks => self.queried_blocks,
                _ => self.queried_chunks,
            },
        )
    }

    /// Registers a distribution.
    pub fn register(&self, metric: Metric, registry: &mut Registry)
        requires
            !metric.is_count(),
        ensures
            prom::registered(*final(registry)) == prom::registered(*old(registry)).push(
                prom::registration(metric.name(), metric.help(), self.of(metric)),
            ),
            prom::registry_prefix(*final(registry)) == prom::registry_prefix(*old(registry)),
            prom::sub_registries(*final(registry)) == prom::sub_registries(*old(registry)),
    {
        let family: &DistributionFamily = match metric {
            Metric::HttpTtfb => &self.http_ttfb,
            Metric::StreamBytes => &self.stream_bytes,
            Metric::StreamBlocks => &self.stream_blocks,
            Metric::StreamChunks => &self.stream_chunks,
            Metric::StreamBytesPerSecond => &self.stream_bytes_per_second,
            Metric::StreamBlocksPerSecond => &self.stream_blocks_per_second,
            Metric::StreamDurations => &self.stream_durations,
            Metric::QueriedBlocks => &self.queried_blocks,
            _ => &self.queried_chunks,
        };
        register_distribution(registry, metric.as_str(), metric.help_text(), family);
    }
}

/// What is registered for a list of metrics.
pub open spec fn registrations(
    order: Seq<Metric>,
    counts: ServiceCounters,
    distributions: Distributions,
) -> Seq<Registration> {
    order.map_values(
        |m: Metric|
            prom::registration(
                m.name(),
                m.help(),
                if m.is_count() {
                    counts.of(m)
                } else {
                    distributions.of(m)
                },
            ),
    )
}

/// Registers all metrics of the service.
fn register_all(registry: &mut Registry, counts: &ServiceMetrics, distributions: &Distributions)
    ensures
        prom::registered(*final(registry)) == prom::registered(*old(registry)) + registrations(
            registry_order(),
            counts@.counters,
            *distributions,
        ),
        prom::registry_prefix(*final(registry)) == prom::registry_prefix(*old(registry)),
        prom::sub_registries(*final(registry)) == prom::sub_registries(*old(registry)),
{
    let order: Vec<Metric> = registered_metrics();
    let ghost all = registrations(order@, counts@.counters, *distributions);
    let mut i: usize = 0;
    assert(prom::registered(*registry) + all.take(0) =~= prom::registered(*registry));
    while i < order.len()
        invariant
            i <= order.len(),
            order@ == registry_order(),
            all == registrations(order@, counts@.counters, *distributions),
            prom::registered(*registry) == prom::registered(*old(registry)) + all.take(i as int),
            prom::registry_prefix(*registry) == prom::registry_prefix(*old(registry)),
            prom::sub_registries(*registry) == prom::sub_registries(*old(registry)),
        decreases order.len() - i,
    {
        let metric: Metric = order[i];
        if !counts.register(metric, registry) {
            distributions.register(metric, registry);
        }
        assert(prom::registered(*old(registry)) + all.take(i as int).push(all[i as int]) =~= prom::registered(
            *old(registry),
        ) + all.take(i + 1));
        assert((prom::registered(*old(registry)) + all.take(i as int)).push(all[i as int]) =~= prom::registered(
            *old(registry),
        ) + all.take(i as int).push(all[i as int]));
        i += 1;
    }
    assert(all.take(i as int) =~= all);
}

/// The registry of all metrics of the service, under one prefix. The upstream errors
/// of ingestion are among them.
pub fn build_metrics_registry(
    counts: &ServiceMetrics,
    ingest: &IngestMetrics,
    distributions: &Distributions,
) -> (top_registry: Registry)
    ensures
        prom::registry_prefix(top_registry) is None,
        prom::registered(top_registry) == Seq::<Registration>::empty(),
        prom::sub_registries(top_registry) == seq![
            (
                Some("hotblocks"@),
                registrations(registry_order(), counts@.counters, *distributions).push(
                    prom::registration(
                        "ingest_source_errors"@,
                        "Number of upstream data source errors by source and kind"@,
                        ingest@.counters.source_errors,
                    ),
                ),
            ),
        ],
{
    let mut top_registry: Registry = new_registry();
    let registry: &mut Registry = sub_registry(&mut top_registry, "hotblocks");
    register_all(registry, counts, distributions);
    assert(prom::registered(*registry) =~= registrations(registry_order(), counts@.counters, *distributions));
    ingest.register(
        IngestFamily::SourceErrors,
        registry,
        "ingest_source_errors",
        "Number of upstream data source errors by source and kind",
    );
    top_registry
}

/// Counts a query task that was rejected because there were too many.
pub fn report_query_too_many_tasks_error(metrics: &mut ServiceMetrics)
    ensures
        final(metrics)@ == (ServiceMetricsView {
            query_error_too_many_tasks: prom::next_count(old(metrics)@.query_error_too_many_tasks),
            ..old(metrics)@
        }),
{
    count_one(&mut metrics.query_error_too_many_tasks);
}

/// Counts a query that was rejected because too many were waiting for data.
pub fn report_query_too_many_data_waiters_error(metrics: &mut ServiceMetrics)
    ensures
        final(metrics)@ == (ServiceMetricsView {
            query_error_too_many_data_waiters: prom::next_count(old(metrics)@.query_error_too_many_data_waiters),
            ..old(metrics)@
        }),
{
    count_one(&mut metrics.query_error_too_many_data_waiters);
}

/// Whether the first byte of a response came late: it took longer than the threshold,
/// and did not have to wait for data.
pub fn is_late_response(to_first_byte: Duration, long_poll: bool, slow_response_config: SlowResponseConfig) -> (b: bool)
    ensures
        b == (!long_poll && to_first_byte@ > slow_response_config@.ttfb_threshold),
{
    !long_poll && to_first_byte.exceeds(slow_response_config.ttfb_threshold)
}

/// Counts a response, and whether its first byte came late.
pub fn report_http_response(
    metrics: &mut ServiceMetrics,
    labels: &Labels,
    to_first_byte: Duration,
    long_poll: bool,
    slow_response_config: SlowResponseConfig,
)
    ensures
        final(metrics)@ == old(metrics)@.with_response(
            prom::label_key(labels@),
            to_first_byte@,
            long_poll,
            slow_response_config@,
        ),
{
    count_event(&mut metrics.http_status, labels);
    let ghost key = prom::label_key(labels@);
    let mut ttfb_labels: Labels = copy_labels(labels);
    let ghost copied = ttfb_labels@;
    ttfb_labels.push(
        (
            "long_poll",
            if long_poll {
                "true".to_owned()
            } else {
                "false".to_owned()
            },
        ),
    );
    assert(prom::label_key(ttfb_labels@) =~= prom::label_key(copied).push(("long_poll"@, bool_text(long_poll))));
    metrics.http_ttfb.push((ttfb_labels, to_first_byte));
    assert(metrics@.http_ttfb =~= old(metrics)@.http_ttfb.push(
        (key.push(("long_poll"@, bool_text(long_poll))), to_first_byte@),
    ));
    if is_late_response(to_first_byte, long_poll, slow_response_config) {
        match response_dataset(labels) {
            Some(dataset) => {
                report_slow_response(metrics, dataset, "ttfb");
            },
            None => {},
        }
    }
}

/// Whether the throughput of a stream says anything: it was not held up by missing
/// data, was long enough and took any time.
pub fn is_measurable_stream(bytes: u64, duration: Duration, long_poll: bool) -> (b: bool)
    ensures
        b == (!long_poll && bytes >= MIN_SLOW_RESPONSE_BYTES && duration@ > 0),
{
    !(long_poll || bytes < MIN_SLOW_RESPONSE_BYTES || duration.is_zero())
}

/// Whether a stream delivered fewer bytes per second than is not slow. A stream that
/// took no time did not.
pub fn is_below_floor(bytes: u64, duration: Duration, slow_response_config: SlowResponseConfig) -> (b: bool)
    ensures
        b == ((bytes as nat * duration::NANOS_PER_SEC as nat) < slow_response_config@.min_bytes_per_second as nat
            * duration@),
{
    let nanos: u128 = duration.as_nanos();
    if nanos == 0 {
        return false;
    }
    let scaled: u128 = bytes as u128 * duration::NANOS_PER_SEC;
    let whole: u128 = scaled / nanos;
    let floor: u128 = slow_response_config.min_bytes_per_second as u128;
    proof {
        vstd::arithmetic::div_mod::lemma_fundamental_div_mod(scaled as int, nanos as int);
        assert(whole < floor <==> scaled < floor * nanos) by (nonlinear_arith)
            requires
                nanos > 0,
                scaled == nanos * whole + scaled % nanos,
                0 <= scaled % nanos < nanos,
        ;
    }
    whole < floor
}

/// Counts a completed stream if it was slow: its throughput says anything, and is
/// below the floor.
pub fn report_stream_slow_response(
    metrics: &mut ServiceMetrics,
    dataset_id: &DatasetId,
    bytes: u64,
    duration: Duration,
    long_poll: bool,
    slow_response_config: SlowResponseConfig,
)
    ensures
        final(metrics)@ == if !long_poll && bytes >= MIN_SLOW_RESPONSE_BYTES && duration@ > 0 && (bytes as nat
            * duration::NANOS_PER_SEC as nat) < slow_response_config@.min_bytes_per_second as nat * duration@ {
            old(metrics)@.with_slow_response(dataset_id@, "throughput"@)
        } else {
            old(metrics)@
        },
{
    if !is_measurable_stream(bytes, duration, long_poll) || !is_below_floor(bytes, duration, slow_response_config) {
        return;
    }
    report_slow_response(metrics, dataset_id.as_str(), "throughput");
}

/// The dataset that the labels of a response name.
pub fn response_dataset(labels: &Labels) -> (dataset: Option<&str>)
    ensures
        dataset is Some == collectors::beside(prom::label_key(labels@), "dataset_name"@) is Some,
        dataset matches Some(d) ==> collectors::beside(prom::label_key(labels@), "dataset_name"@) == Some(d@),
{
    let ghost all = prom::label_key(labels@);
    let mut i: usize = 0;
    assert(all.skip(0) =~= all);
    while i < labels.len()
        invariant
            i <= labels.len(),
            all == prom::label_key(labels@),
            collectors::beside(all.skip(i as int), "dataset_name"@) == collectors::beside(all, "dataset_name"@),
        decreases labels.len() - i,
    {
        assert(all.skip(i as int)[0] == (labels@[i as int].0@, labels@[i as int].1@));
        assert(all.skip(i as int).skip(1) =~= all.skip(i + 1));
        if same_text(labels[i].0, "dataset_name") {
            return Some(labels[i].1.as_str());
        }
        i += 1;
    }
    None
}

/// Counts a slow response.
pub fn report_slow_response(metrics: &mut ServiceMetrics, dataset: &str, reason: &str)
    ensures
        final(metrics)@ == old(metrics)@.with_slow_response(dataset@, reason@),
{
    let labels: Labels = two_labels("dataset", dataset, "reason", reason);
    count_event(&mut metrics.slow_responses, &labels);
}

/// Whole milliseconds, or the largest number if they do not fit in 64 bits.
pub fn duration_millis(duration: Duration) -> (n: u64)
    ensures
        n == duration::smaller(duration@ / duration::NANOS_PER_MILLI as nat, u64::MAX as nat),
{
    let millis: u128 = duration.as_millis();
    if millis > u64::MAX as u128 {
        u64::MAX
    } else {
        millis as u64
    }
}

} // verus!
