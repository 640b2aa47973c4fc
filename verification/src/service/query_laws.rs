//! When a query is answered, waits or is refused, and what is counted of responses.
use crate::prom::{self, LabelKey, Registration};
use crate::service::collectors;
use crate::service::metrics::{
    self, Distributions, Metric, ServiceCounters, ServiceMetricsView, SlowResponseView, MIN_SLOW_RESPONSE_BYTES,
};
use crate::service::query::{
    self, DatasetHead, QueryError, QueryErrorView, QueryHead, QueryServiceView, QueryStep,
};
use crate::types::{BlockNumber, BlockRef, BlockRefView};
use vstd::prelude::*;

verus! {

/// A query for another kind of dataset is refused. Of the others, one is answered at
/// once exactly if its first block is at or below the head that it is answered from:
/// the finalized one if it asks for final blocks, the newest one otherwise. One whose
/// first block comes right after that head, on another parent than the head, is
/// refused with the head; all the rest have to wait, also where there is no head.
pub proof fn law_when_a_query_waits(dataset: DatasetHead, query: QueryHead, finalized: bool, head: Option<BlockRef>)
    requires
        finalized ==> head == dataset.finalized_head,
        !finalized ==> head == dataset.head,
    ensures
        ({
            let r = query::long_poll_of(dataset, query, finalized);
            let same_kind = dataset.kind@ == query.kind@;
            let there = head is Some && head.unwrap().number >= query.first_block;
            let contradicted = head is Some && head.unwrap().number + 1 == query.first_block
                && query.parent_block_hash is Some && query.parent_block_hash.unwrap()@ != head.unwrap().hash@;
            &&& !same_kind ==> r == Err::<bool, QueryErrorView>(
                QueryErrorView::KindMismatch { query_kind: query.kind@, dataset_kind: dataset.kind@ },
            )
            &&& same_kind && there ==> r == Ok::<bool, QueryErrorView>(false)
            &&& same_kind && contradicted ==> r is Err && r->Err_0 == (QueryErrorView::UnexpectedBaseBlock {
                prev_blocks: seq![BlockRefView { number: head.unwrap().number, hash: head.unwrap().hash@ }],
                expected_hash: query.parent_block_hash.unwrap()@,
            })
            &&& same_kind && !there && !contradicted ==> r == Ok::<bool, QueryErrorView>(true)
        }),
{
}

/// A query that has to wait gets a slot of its own exactly if fewer than the limit are
/// waiting; it then waits for its first block for five seconds at most, and one more
/// is waiting. If none is free it is refused as one too many, which is counted; and
/// whether it waits is told accordingly. A query that does not have to wait changes
/// nothing.
pub proof fn law_a_waiting_query_takes_a_slot(
    before: QueryServiceView,
    after: QueryServiceView,
    counts_before: ServiceMetricsView,
    counts_after: ServiceMetricsView,
    long_poll: Result<bool, QueryErrorView>,
    first_block: BlockNumber,
    finalized: bool,
    r: (QueryStep, bool),
)
    requires
        query::query_begun(
            before,
            after,
            counts_before,
            counts_after,
            long_poll,
            first_block,
            finalized,
            r,
        ),
    ensures
        ({
            let waits = long_poll == Ok::<bool, QueryErrorView>(true);
            let free = before.wait_slots.waiters < before.wait_slots.limit;
            &&& r.1 <==> waits && free
            &&& r.0 is Wait <==> waits && free
            &&& r.0 is Respond <==> long_poll == Ok::<bool, QueryErrorView>(false)
            &&& r.0 matches QueryStep::Wait { first_block: b, finalized: f, timeout } ==> b == first_block && f
                == finalized && timeout@ == 5_000_000_000
            &&& long_poll is Err ==> (r.0 matches QueryStep::Refuse(e) && e@ == long_poll->Err_0)
            &&& waits && !free ==> (r.0 matches QueryStep::Refuse(e) && e@ is Busy)
            &&& after.executor == before.executor
            &&& after.slow_response_config == before.slow_response_config
            &&& after.wait_slots.limit == before.wait_slots.limit
            &&& after.wait_slots.waiters == before.wait_slots.waiters + if waits && free {
                1int
            } else {
                0
            }
            &&& !(waits && !free) ==> counts_after == counts_before
            &&& waits && !free ==> counts_after == (ServiceMetricsView {
                query_error_too_many_data_waiters: if counts_before.query_error_too_many_data_waiters == u64::MAX {
                    0
                } else {
                    (counts_before.query_error_too_many_data_waiters + 1) as u64
                },
                ..counts_before
            })
        }),
{
}

/// The text that is found beside a name is that of the first pair with that name, and
/// none is found exactly if no pair has it.
pub proof fn law_the_first_pair_is_found(table: Seq<(Seq<char>, Seq<char>)>, name: Seq<char>, i: int)
    requires
        0 <= i <= table.len(),
        i < table.len() ==> table[i].0 == name,
        forall|j: int| 0 <= j < i ==> (#[trigger] table[j]).0 != name,
    ensures
        collectors::beside(table, name) == if i < table.len() {
            Some(table[i].1)
        } else {
            None
        },
    decreases table.len(),
{
    if table.len() > 0 && i > 0 {
        let rest = table.skip(1);
        assert(table[0].0 != name);
        assert forall|j: int| 0 <= j < i - 1 implies (#[trigger] rest[j]).0 != name by {
            assert(rest[j] == table[j + 1]);
        }
        if i < table.len() {
            assert(rest[i - 1] == table[i]);
        }
        law_the_first_pair_is_found(rest, name, i - 1);
    }
}

/// A response counts once under its labels, and its time to first byte is taken down
/// under these and whether it had to wait. It counts as slow exactly if it did not
/// have to wait, its first byte took longer than the threshold, and its labels name a
/// dataset: then once, for the first dataset named. Nothing else is counted.
pub proof fn law_a_response_is_counted_once(
    counts: ServiceMetricsView,
    labels: LabelKey,
    to_first_byte: nat,
    long_poll: bool,
    config: SlowResponseView,
    i: int,
)
    requires
        0 <= i <= labels.len(),
        i < labels.len() ==> labels[i].0 == "dataset_name"@,
        forall|j: int| 0 <= j < i ==> (#[trigger] labels[j]).0 != "dataset_name"@,
    ensures
        ({
            let next = counts.with_response(labels, to_first_byte, long_poll, config);
            let slow = !long_poll && to_first_byte > config.ttfb_threshold && i < labels.len();
            &&& next.http_status == prom::counted(counts.http_status, labels)
            &&& next.http_ttfb.len() == counts.http_ttfb.len() + 1
            &&& next.http_ttfb.take(counts.http_ttfb.len() as int) == counts.http_ttfb
            &&& next.http_ttfb.last().1 == to_first_byte
            &&& next.http_ttfb.last().0 == labels + seq![
                (
                    "long_poll"@,
                    if long_poll {
                        "true"@
                    } else {
                        "false"@
                    },
                ),
            ]
            &&& slow ==> next.slow_responses == prom::counted(
                counts.slow_responses,
                seq![("dataset"@, labels[i].1), ("reason"@, "ttfb"@)],
            )
            &&& !slow ==> next.slow_responses == counts.slow_responses
            &&& next.query_error_too_many_tasks == counts.query_error_too_many_tasks
            &&& next.query_error_too_many_data_waiters == counts.query_error_too_many_data_waiters
            &&& next.completed_queries == counts.completed_queries
            &&& next.counters == counts.counters
        }),
{
    law_the_first_pair_is_found(labels, "dataset_name"@, i);
    let next = counts.with_response(labels, to_first_byte, long_poll, config);
    assert(next.http_ttfb.take(counts.http_ttfb.len() as int) =~= counts.http_ttfb);
    assert(next.http_ttfb.last().0 =~= labels + seq![
        (
            "long_poll"@,
            if long_poll {
                "true"@
            } else {
                "false"@
            },
        ),
    ]);
}

/// A slow response counts once under its dataset and its reason, and as nothing else.
pub proof fn law_a_slow_response_is_counted_once(counts: ServiceMetricsView, dataset: Seq<char>, reason: Seq<char>)
    ensures
        counts.with_slow_response(dataset, reason) == (ServiceMetricsView {
            slow_responses: prom::counted(
                counts.slow_responses,
                seq![("dataset"@, dataset), ("reason"@, reason)],
            ),
            ..counts
        }),
        MIN_SLOW_RESPONSE_BYTES == 10_000,
{
}

/// Every metric is registered, and only once.
pub proof fn law_every_metric_is_registered_once(metric: Metric)
    ensures
        metrics::registry_order().contains(metric),
        metrics::registry_order().len() == 14,
        metrics::registry_order().no_duplicates(),
{
    let order = metrics::registry_order();
    let place: int = match metric {
        Metric::QueryErrorTooManyTasks => 0,
        Metric::QueryErrorTooManyDataWaiters => 1,
        Metric::HttpStatus => 2,
        Metric::HttpTtfb => 3,
        Metric::SlowResponses => 4,
        Metric::StreamBytes => 5,
        Metric::StreamBlocks => 6,
        Metric::StreamChunks => 7,
        Metric::StreamBytesPerSecond => 8,
        Metric::StreamBlocksPerSecond => 9,
        Metric::StreamDurations => 10,
        Metric::QueriedBlocks => 11,
        Metric::QueriedChunks => 12,
        Metric::CompletedQueries => 13,
    };
    assert(order[place] == metric);
}

/// A metric is shown under its own name and with its own help text, which gets a full
/// stop; and what it shows are its own counts, or its own distributions.
pub proof fn law_a_metric_shows_its_own_values(
    order: Seq<Metric>,
    counts: ServiceCounters,
    distributions: Distributions,
    i: int,
)
    requires
        0 <= i < order.len(),
    ensures
        metrics::registrations(order, counts, distributions).len() == order.len(),
        metrics::registrations(order, counts, distributions)[i] == (Registration {
            name: order[i].name(),
            help: order[i].help() + seq!['.'],
            shows: match order[i] {
                Metric::QueryErrorTooManyTasks => counts.query_error_too_many_tasks,
                Metric::QueryErrorTooManyDataWaiters => counts.query_error_too_many_data_waiters,
                Metric::HttpStatus => counts.http_status,
                Metric::HttpTtfb => prom::family_distributions(distributions.http_ttfb),
                Metric::SlowResponses => counts.slow_responses,
                Metric::StreamBytes => prom::family_distributions(distributions.stream_bytes),
                Metric::StreamBlocks => prom::family_distributions(distributions.stream_blocks),
                Metric::StreamChunks => prom::family_distributions(distributions.stream_chunks),
                Metric::StreamBytesPerSecond => prom::family_distributions(distributions.stream_bytes_per_second),
                Metric::StreamBlocksPerSecond => prom::family_distributions(distributions.stream_blocks_per_second),
                Metric::StreamDurations => prom::family_distributions(distributions.stream_durations),
                Metric::QueriedBlocks => prom::family_distributions(distributions.queried_blocks),
                Metric::QueriedChunks => prom::family_distributions(distributions.queried_chunks),
                Metric::CompletedQueries => counts.completed_queries,
            },
        }),
{
    assert(metrics::registrations(order, counts, distributions)[i].help =~= order[i].help() + seq!['.']);
}

/// What the metrics are said to show.
pub proof fn law_metrics_keep_their_help_texts()
    ensures
        Metric::QueryErrorTooManyTasks.help() == "Number of query tasks rejected due to task queue overflow"@,
        Metric::QueryErrorTooManyDataWaiters.help()
            == "Number of queries rejected, because data is not yet available and there are too many data waiters"@,
        Metric::HttpStatus.help() == "Number of sent HTTP responses"@,
        Metric::HttpTtfb.help() == "Time to first byte of HTTP responses"@,
        Metric::SlowResponses.help()
            == "Number of non-long-poll responses that exceeded a latency or throughput threshold"@,
        Metric::StreamBytes.help() == "Number of bytes per stream"@,
        Metric::StreamBlocks.help() == "Number of blocks per stream"@,
        Metric::StreamChunks.help() == "Number of chunks per stream"@,
        Metric::StreamBytesPerSecond.help() == "Completed streams bandwidth"@,
        Metric::StreamBlocksPerSecond.help() == "Completed streams speed in blocks"@,
        Metric::StreamDurations.help() == "Durations of completed streams"@,
        Metric::QueriedBlocks.help() == "Number of blocks per running query"@,
        Metric::QueriedChunks.help() == "Number of chunks per running query"@,
        Metric::CompletedQueries.help() == "Number of completed queries"@,
{
}

/// The names under which scrapers know the metrics.
pub proof fn law_metrics_keep_their_names()
    ensures
        Metric::QueryErrorTooManyTasks.name() == "query_error_too_many_tasks"@,
        Metric::QueryErrorTooManyDataWaiters.name() == "query_error_too_many_data_waiters"@,
        Metric::HttpStatus.name() == "http_status"@,
        Metric::HttpTtfb.name() == "http_seconds_to_first_byte"@,
        Metric::SlowResponses.name() == "slow_responses"@,
        Metric::StreamBytes.name() == "stream_bytes"@,
        Metric::StreamBlocks.name() == "stream_blocks"@,
        Metric::StreamChunks.name() == "stream_chunks"@,
        Metric::StreamBytesPerSecond.name() == "stream_bytes_per_second"@,
        Metric::StreamBlocksPerSecond.name() == "stream_blocks_per_second"@,
        Metric::StreamDurations.name() == "stream_duration_seconds"@,
        Metric::QueriedBlocks.name() == "queried_blocks"@,
        Metric::QueriedChunks.name() == "queried_chunks"@,
        Metric::CompletedQueries.name() == "completed_queries"@,
{
}

/// What an error says is what it was made of.
pub proof fn law_query_errors_are_told_as_they_are(error: QueryError)
    ensures
        error matches QueryError::KindMismatch { query_kind, dataset_kind } ==> error@ == (
        QueryErrorView::KindMismatch { query_kind: query_kind@, dataset_kind: dataset_kind@ }),
        error matches QueryError::UnexpectedBaseBlock { prev_blocks, expected_hash } ==> (error@
            matches QueryErrorView::UnexpectedBaseBlock { prev_blocks: named, expected_hash: told } && told
            == expected_hash@ && named.len() == prev_blocks@.len() && forall|k: int|
            0 <= k < named.len() ==> #[trigger] named[k] == (BlockRefView {
                number: prev_blocks@[k].number,
                hash: prev_blocks@[k].hash@,
            })),
        error is Busy <==> error@ is Busy,
        error matches QueryError::AboveTheHead { finalized_head } ==> (error@
            matches QueryErrorView::AboveTheHead { finalized_head: told } && (told is Some <==> finalized_head is Some)
            && (finalized_head matches Some(head) ==> told == Some(
            BlockRefView { number: head.number, hash: head.hash@ },
        ))),
{
}

} // verus!
