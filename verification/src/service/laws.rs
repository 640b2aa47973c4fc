//! What holds of the service whatever it is asked.
use crate::prom::LabelKey;
use crate::service::collectors::{self, GaugeView, RocksDbReading};
use crate::service::data_service;
use crate::service::metrics::{ServiceMetricsView, SlowResponseView};
use crate::service::query::{self, DatasetHead, QueryErrorView, QueryHead};
use crate::types::DatasetId;
use vstd::prelude::*;

verus! {

/// Each outcome of starting a dataset is accounted for: one that succeeded is served
/// and reported as ready, whatever became of the others; one that failed is reported
/// as not ready.
pub proof fn law_a_failure_is_isolated<T, E>(outcomes: Seq<(DatasetId, Result<T, E>)>, i: int)
    requires
        0 <= i < outcomes.len(),
    ensures
        outcomes[i].1 is Ok ==> data_service::by_name(data_service::started(outcomes)).contains_key(outcomes[i].0@),
        data_service::readiness(outcomes).contains((outcomes[i].0@, outcomes[i].1 is Ok)),
        data_service::readiness(outcomes).len() == outcomes.len(),
{
    let ups = data_service::started(outcomes);
    let downs = data_service::failed(outcomes);
    lemma_all_accounted_for(outcomes);
    lemma_place_of(outcomes, i);
    let list = data_service::readiness(outcomes);
    if outcomes[i].1 is Ok {
        let k = choose|k: int| 0 <= k < ups.len() && (#[trigger] ups[k]).0 == outcomes[i].0;
        lemma_named(ups, k);
        assert(list[k] == (outcomes[i].0@, true));
    } else {
        let k = choose|k: int| 0 <= k < downs.len() && #[trigger] downs[k] == outcomes[i].0;
        assert(list[ups.len() + k] == (outcomes[i].0@, false));
    }
}

/// Nothing is served exactly if nothing could be started; so the service refuses to
/// start exactly if something was configured and every outcome is a failure.
pub proof fn law_only_a_total_failure_keeps_from_starting<T, E>(outcomes: Seq<(DatasetId, Result<T, E>)>)
    ensures
        data_service::started(outcomes).len() == 0 <==> forall|i: int|
            0 <= i < outcomes.len() ==> (#[trigger] outcomes[i]).1 is Err,
    decreases outcomes.len(),
{
    if outcomes.len() > 0 {
        let init = outcomes.drop_last();
        law_only_a_total_failure_keeps_from_starting(init);
        assert(outcomes.last() == outcomes[outcomes.len() - 1]);
        assert(forall|i: int| 0 <= i < init.len() ==> init[i] == outcomes[i]);
        if data_service::started(outcomes).len() == 0 {
            assert forall|i: int| 0 <= i < outcomes.len() implies (#[trigger] outcomes[i]).1 is Err by {
                if i < init.len() {
                    assert(init[i].1 is Err);
                }
            }
        }
    }
}

proof fn lemma_all_accounted_for<T, E>(outcomes: Seq<(DatasetId, Result<T, E>)>)
    ensures
        data_service::started(outcomes).len() + data_service::failed(outcomes).len() == outcomes.len(),
    decreases outcomes.len(),
{
    if outcomes.len() > 0 {
        lemma_all_accounted_for(outcomes.drop_last());
    }
}

proof fn lemma_place_of<T, E>(outcomes: Seq<(DatasetId, Result<T, E>)>, i: int)
    requires
        0 <= i < outcomes.len(),
    ensures
        outcomes[i].1 is Ok ==> exists|k: int|
            0 <= k < data_service::started(outcomes).len() && (#[trigger] data_service::started(outcomes)[k]).0
                == outcomes[i].0,
        outcomes[i].1 is Err ==> exists|k: int|
            0 <= k < data_service::failed(outcomes).len() && #[trigger] data_service::failed(outcomes)[k]
                == outcomes[i].0,
    decreases outcomes.len(),
{
    let init = outcomes.drop_last();
    let ups = data_service::started(outcomes);
    let downs = data_service::failed(outcomes);
    if i < init.len() {
        assert(init[i] == outcomes[i]);
        lemma_place_of(init, i);
        if outcomes[i].1 is Ok {
            let k = choose|k: int|
                0 <= k < data_service::started(init).len() && (#[trigger] data_service::started(init)[k]).0
                    == init[i].0;
            assert(ups[k].0 == outcomes[i].0);
        } else {
            let k = choose|k: int|
                0 <= k < data_service::failed(init).len() && #[trigger] data_service::failed(init)[k] == init[i].0;
            assert(downs[k] == outcomes[i].0);
        }
    } else {
        assert(outcomes.last() == outcomes[i]);
        if outcomes[i].1 is Ok {
            assert(ups[ups.len() - 1].0 == outcomes[i].0);
        } else {
            assert(downs[downs.len() - 1] == outcomes[i].0);
        }
    }
}

proof fn lemma_named<T>(entries: Seq<(DatasetId, T)>, k: int)
    requires
        0 <= k < entries.len(),
    ensures
        data_service::by_name(entries).contains_key(entries[k].0@),
    decreases entries.len(),
{
    let init = entries.drop_last();
    if k < init.len() {
        assert(init[k] == entries[k]);
        lemma_named(init, k);
    } else {
        assert(entries.last() == entries[k]);
    }
}

/// The recovery of disk space deletes every dataset that is not configured, whether
/// or not space is to be reclaimed; and if it is, it begins and ends with
/// reclaiming it.
pub proof fn law_recovery_deletes_in_any_case(unconfigured: Seq<Seq<char>>, disk_reclaim: bool, i: int)
    requires
        0 <= i < unconfigured.len(),
    ensures
        ({
            let steps = data_service::recovery_steps(unconfigured, disk_reclaim);
            &&& steps.contains(data_service::RecoveryStepView::DeleteDataset(unconfigured[i]))
            &&& disk_reclaim ==> steps[0] is ReclaimDiskSpace && steps.last() is ReclaimDiskSpace
            &&& !disk_reclaim ==> steps.len() == unconfigured.len()
        }),
{
    let steps = data_service::recovery_steps(unconfigured, disk_reclaim);
    let place = if disk_reclaim {
        i + 2
    } else {
        i
    };
    assert(steps[place] == data_service::RecoveryStepView::DeleteDataset(unconfigured[i]));
}

/// A query waits exactly if its first block is not there yet: it is for this kind of
/// dataset, its first block lies above the head, and nothing speaks against the head
/// being its parent.
pub proof fn law_a_query_waits_for_missing_blocks(dataset: DatasetHead, query: QueryHead, finalized: bool)
    ensures
        query::long_poll_of(dataset, query, finalized) == Ok::<bool, QueryErrorView>(false) <==> dataset.kind@
            == query.kind@ && (query::target_head(dataset, finalized) matches Some(head) && head.number
            >= query.first_block),
        query::long_poll_of(dataset, query, finalized) == Ok::<bool, QueryErrorView>(true) ==> (query::target_head(
            dataset,
            finalized,
        ) matches Some(head) ==> head.number < query.first_block && (head.number + 1 == query.first_block
            && query.parent_block_hash is Some ==> head.hash == query.parent_block_hash.unwrap()@)),
{
}

/// A response that had to wait for data never counts as slow, nor does one whose
/// first byte came within the threshold.
pub proof fn law_waiting_is_not_slowness(
    counts: ServiceMetricsView,
    labels: LabelKey,
    to_first_byte: nat,
    long_poll: bool,
    config: SlowResponseView,
)
    ensures
        long_poll || to_first_byte <= config.ttfb_threshold ==> counts.with_response(
            labels,
            to_first_byte,
            long_poll,
            config,
        ).slow_responses == counts.slow_responses,
{
}

/// What was not answered is left out: no gauge is shown without a value.
pub proof fn law_no_gauge_is_empty(reading: RocksDbReading, i: int)
    requires
        reading.complete(),
        0 <= i < reading.gauges().len(),
    ensures
        reading.gauges()[i].samples.len() > 0,
{
    let families = collectors::family_gauges(
        reading.families@,
        reading.family_values@,
        collectors::cf_property_table().len(),
    );
    let database = collectors::database_gauges(reading.values@, collectors::db_property_table().len());
    lemma_family_gauges_full(reading, collectors::cf_property_table().len());
    lemma_database_gauges_full(reading.values@, collectors::db_property_table().len());
    match reading.statistics {
        Some(statistics) => {
            lemma_statistics_gauges_full(crate::text::lines_of(statistics@, 0));
        },
        None => {},
    }
}

spec fn all_full(gauges: Seq<GaugeView>) -> bool {
    forall|i: int| 0 <= i < gauges.len() ==> (#[trigger] gauges[i]).samples.len() > 0
}

proof fn lemma_family_gauges_full(reading: RocksDbReading, n: nat)
    ensures
        all_full(collectors::family_gauges(reading.families@, reading.family_values@, n)),
    decreases n,
{
    if n > 0 {
        lemma_family_gauges_full(reading, (n - 1) as nat);
    }
}

proof fn lemma_database_gauges_full(values: Seq<Option<u64>>, n: nat)
    ensures
        all_full(collectors::database_gauges(values, n)),
    decreases n,
{
    if n > 0 {
        lemma_database_gauges_full(values, (n - 1) as nat);
    }
}

proof fn lemma_statistics_gauges_full(lines: Seq<Seq<char>>)
    ensures
        all_full(collectors::statistics_gauges(lines)),
    decreases lines.len(),
{
    if lines.len() > 0 {
        lemma_statistics_gauges_full(lines.drop_last());
    }
}

/// Without statistics none of the gauges that show them is there.
pub proof fn law_statistics_are_optional(reading: RocksDbReading)
    requires
        reading.statistics is None,
    ensures
        reading.gauges() == collectors::family_gauges(
            reading.families@,
            reading.family_values@,
            collectors::cf_property_table().len(),
        ) + collectors::database_gauges(reading.values@, collectors::db_property_table().len()),
{
    assert(reading.gauges() =~= collectors::family_gauges(
        reading.families@,
        reading.family_values@,
        collectors::cf_property_table().len(),
    ) + collectors::database_gauges(reading.values@, collectors::db_property_table().len()));
}

} // verus!
