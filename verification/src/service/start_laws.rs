//! What becomes of the datasets when the service starts.
use crate::service::data_service::{self, AllDatasetsFailed, RecoveryStep, RecoveryStepView};
use crate::text;
use crate::types::DatasetId;
use vstd::prelude::*;

verus! {

/// The outcomes are told apart by themselves alone: those that succeeded come, with
/// their own controllers, in the order in which they came, and so do the ids of those
/// that failed.
pub proof fn law_outcomes_are_told_apart<T, E>(outcomes: Seq<(DatasetId, Result<T, E>)>)
    ensures
        data_service::started(outcomes) == outcomes.filter(
            |o: (DatasetId, Result<T, E>)| o.1 is Ok,
        ).map_values(|o: (DatasetId, Result<T, E>)| (o.0, o.1->Ok_0)),
        data_service::failed(outcomes) == outcomes.filter(
            |o: (DatasetId, Result<T, E>)| o.1 is Err,
        ).map_values(|o: (DatasetId, Result<T, E>)| o.0),
    decreases outcomes.len(),
{
    reveal(Seq::filter);
    let pick = |o: (DatasetId, Result<T, E>)| (o.0, o.1->Ok_0);
    let name = |o: (DatasetId, Result<T, E>)| o.0;
    let ups = outcomes.filter(|o: (DatasetId, Result<T, E>)| o.1 is Ok);
    let downs = outcomes.filter(|o: (DatasetId, Result<T, E>)| o.1 is Err);
    if outcomes.len() == 0 {
        assert(ups.map_values(pick) =~= Seq::empty());
        assert(downs.map_values(name) =~= Seq::empty());
    } else {
        let init = outcomes.drop_last();
        law_outcomes_are_told_apart(init);
        let ups_before = init.filter(|o: (DatasetId, Result<T, E>)| o.1 is Ok);
        let downs_before = init.filter(|o: (DatasetId, Result<T, E>)| o.1 is Err);
        if outcomes.last().1 is Ok {
            assert(ups.map_values(pick) =~= ups_before.map_values(pick).push(pick(outcomes.last())));
        } else {
            assert(downs.map_values(name) =~= downs_before.map_values(name).push(name(outcomes.last())));
        }
    }
}

/// Each name is served by the controller of the last dataset of that name that could
/// be started: that very controller, whatever became of the others.
pub proof fn law_a_name_is_served_by_its_own_controller<T, E>(outcomes: Seq<(DatasetId, Result<T, E>)>, i: int)
    requires
        0 <= i < outcomes.len(),
        outcomes[i].1 is Ok,
        forall|j: int|
            i < j < outcomes.len() && (#[trigger] outcomes[j]).1 is Ok ==> outcomes[j].0@ != outcomes[i].0@,
    ensures
        data_service::by_name(data_service::started(outcomes)).contains_pair(
            outcomes[i].0@,
            outcomes[i].1->Ok_0,
        ),
    decreases outcomes.len(),
{
    let n = outcomes.len() - 1;
    let init = outcomes.drop_last();
    let before = data_service::started(init);
    let ups = data_service::started(outcomes);
    assert(outcomes.last() == outcomes[n]);
    if i < n {
        assert(init[i] == outcomes[i]);
        assert forall|j: int| i < j < init.len() && (#[trigger] init[j]).1 is Ok implies init[j].0@ != init[i].0@ by {
            assert(init[j] == outcomes[j]);
        }
        law_a_name_is_served_by_its_own_controller(init, i);
    }
    if outcomes[n].1 is Ok {
        assert(ups.drop_last() =~= before);
        assert(ups.last() == (outcomes[n].0, outcomes[n].1->Ok_0));
    }
}

/// Nothing is served under a name but what was started under it: whatever is served
/// is the controller of the last dataset of that name that could be started.
pub proof fn law_nothing_else_is_served<T, E>(outcomes: Seq<(DatasetId, Result<T, E>)>, name: Seq<char>)
    requires
        data_service::by_name(data_service::started(outcomes)).contains_key(name),
    ensures
        exists|i: int|
            0 <= i < outcomes.len() && (#[trigger] outcomes[i]).0@ == name && outcomes[i].1
                == Ok::<T, E>(data_service::by_name(data_service::started(outcomes))[name]) && forall|j: int|
                i < j < outcomes.len() && (#[trigger] outcomes[j]).1 is Ok ==> outcomes[j].0@ != name,
    decreases outcomes.len(),
{
    let ups = data_service::started(outcomes);
    if outcomes.len() > 0 {
        let n = outcomes.len() - 1;
        let init = outcomes.drop_last();
        let before = data_service::started(init);
        assert(outcomes.last() == outcomes[n]);
        if outcomes[n].1 is Ok {
            assert(ups.drop_last() =~= before);
            assert(ups.last() == (outcomes[n].0, outcomes[n].1->Ok_0));
        }
        if outcomes[n].1 is Ok && outcomes[n].0@ == name {
            assert(outcomes[n].1 == Ok::<T, E>(data_service::by_name(ups)[name]));
        } else {
            law_nothing_else_is_served(init, name);
            let i = choose|i: int|
                0 <= i < init.len() && (#[trigger] init[i]).0@ == name && init[i].1 == Ok::<T, E>(
                    data_service::by_name(before)[name],
                ) && forall|j: int| i < j < init.len() && (#[trigger] init[j]).1 is Ok ==> init[j].0@ != name;
            assert(init[i] == outcomes[i]);
            assert forall|j: int| i < j < outcomes.len() && (#[trigger] outcomes[j]).1 is Ok implies outcomes[j].0@
                != name by {
                if j < n {
                    assert(init[j] == outcomes[j]);
                }
            }
        }
    }
}

/// What is reported of the datasets: each outcome once, under its own name, as ready
/// exactly if it succeeded; first those that did, then those that did not, each in
/// order.
pub proof fn law_readiness_tells_each_outcome<T, E>(outcomes: Seq<(DatasetId, Result<T, E>)>)
    ensures
        data_service::readiness(outcomes) == outcomes.filter(
            |o: (DatasetId, Result<T, E>)| o.1 is Ok,
        ).map_values(|o: (DatasetId, Result<T, E>)| (o.0@, true)) + outcomes.filter(
            |o: (DatasetId, Result<T, E>)| o.1 is Err,
        ).map_values(|o: (DatasetId, Result<T, E>)| (o.0@, false)),
{
    law_outcomes_are_told_apart(outcomes);
    let ups = outcomes.filter(|o: (DatasetId, Result<T, E>)| o.1 is Ok);
    let downs = outcomes.filter(|o: (DatasetId, Result<T, E>)| o.1 is Err);
    assert(data_service::started(outcomes).map_values(|e: (DatasetId, T)| (e.0@, true)) =~= ups.map_values(
        |o: (DatasetId, Result<T, E>)| (o.0@, true),
    ));
    assert(data_service::failed(outcomes).map_values(|id: DatasetId| (id@, false)) =~= downs.map_values(
        |o: (DatasetId, Result<T, E>)| (o.0@, false),
    ));
}

/// An id counts as not configured exactly if it is stored and is none of those
/// configured. The ids come in the order in which they are stored, each as often.
pub proof fn law_only_unconfigured_ids_are_told(
    stored: Seq<Seq<char>>,
    configured: Seq<Seq<char>>,
    id: Seq<char>,
)
    ensures
        data_service::not_configured(stored, configured).contains(id) <==> stored.contains(id) && forall|i: int|
            0 <= i < configured.len() ==> #[trigger] configured[i] != id,
        data_service::not_configured(stored, configured) == stored.filter(
            |s: Seq<char>| forall|i: int| 0 <= i < configured.len() ==> #[trigger] configured[i] != s,
        ),
    decreases stored.len(),
{
    reveal(Seq::filter);
    let left = data_service::not_configured(stored, configured);
    if stored.len() > 0 {
        let init = stored.drop_last();
        let last = stored.last();
        let before = data_service::not_configured(init, configured);
        law_only_unconfigured_ids_are_told(init, configured, id);
        assert(configured.contains(last) <==> !(forall|i: int|
            0 <= i < configured.len() ==> #[trigger] configured[i] != last));
        assert(stored.contains(id) <==> init.contains(id) || last == id) by {
            assert(last == stored[stored.len() - 1]);
            if stored.contains(id) && last != id {
                let k = choose|k: int| 0 <= k < stored.len() && stored[k] == id;
                assert(init[k] == id);
            }
            if init.contains(id) {
                let k = choose|k: int| 0 <= k < init.len() && init[k] == id;
                assert(stored[k] == id);
            }
        }
        if !configured.contains(last) {
            assert(left.contains(id) <==> before.contains(id) || last == id) by {
                assert(left[before.len() as int] == last);
                if left.contains(id) && last != id {
                    let k = choose|k: int| 0 <= k < left.len() && left[k] == id;
                    assert(before[k] == id);
                }
                if before.contains(id) {
                    let k = choose|k: int| 0 <= k < before.len() && before[k] == id;
                    assert(left[k] == id);
                }
            }
        }
    }
}

/// The names of datasets are those of the ids, one by one.
pub proof fn law_names_are_those_of_the_ids(ids: Seq<DatasetId>, list: Seq<(DatasetId, bool)>, i: int)
    ensures
        data_service::names(ids).len() == ids.len(),
        0 <= i < ids.len() ==> data_service::names(ids)[i] == ids[i]@,
        data_service::readiness_views(list).len() == list.len(),
        0 <= i < list.len() ==> data_service::readiness_views(list)[i] == (list[i].0@, list[i].1),
{
}

/// The steps of the recovery, place by place: with space to be reclaimed, reclaiming
/// comes first and last, purging second, and the deletions between, in order; without,
/// there are the deletions alone.
pub proof fn law_the_order_of_recovery(unconfigured: Seq<Seq<char>>, i: int)
    requires
        0 <= i < unconfigured.len(),
    ensures
        ({
            let n = unconfigured.len() as int;
            let with = data_service::recovery_steps(unconfigured, true);
            let without = data_service::recovery_steps(unconfigured, false);
            &&& with.len() == n + 3
            &&& with[0] is ReclaimDiskSpace
            &&& with[1] is PurgeOrphanTables
            &&& with[2 + i] == RecoveryStepView::DeleteDataset(unconfigured[i])
            &&& with[2 + n] is ReclaimDiskSpace
            &&& without.len() == n
            &&& without[i] == RecoveryStepView::DeleteDataset(unconfigured[i])
        }),
{
}

/// With nothing to delete there is nothing to do, unless space is to be reclaimed.
pub proof fn law_recovery_without_deletions(unconfigured: Seq<Seq<char>>)
    requires
        unconfigured.len() == 0,
    ensures
        data_service::recovery_steps(unconfigured, false).len() == 0,
        data_service::recovery_steps(unconfigured, true).len() == 3,
        data_service::recovery_steps(unconfigured, true)[0] is ReclaimDiskSpace,
        data_service::recovery_steps(unconfigured, true)[1] is PurgeOrphanTables,
        data_service::recovery_steps(unconfigured, true)[2] is ReclaimDiskSpace,
{
}

/// What a list of steps says, one by one.
pub proof fn law_steps_are_told_one_by_one(steps: Seq<RecoveryStep>, i: int)
    requires
        0 <= i < steps.len(),
    ensures
        data_service::step_views(steps).len() == steps.len(),
        data_service::step_views(steps)[i] == match steps[i] {
            RecoveryStep::ReclaimDiskSpace => RecoveryStepView::ReclaimDiskSpace,
            RecoveryStep::PurgeOrphanTables => RecoveryStepView::PurgeOrphanTables,
            RecoveryStep::DeleteDataset(id) => RecoveryStepView::DeleteDataset(id@),
        },
{
}

/// The steps with what came of each.
pub open spec fn tried(steps: Seq<RecoveryStepView>, outcomes: Seq<Option<usize>>) -> Seq<
    (RecoveryStepView, Option<usize>),
> {
    Seq::new(steps.len(), |i: int| (steps[i], outcomes[i]))
}

/// The number of datasets deleted is the number of deletions that did not fail.
pub proof fn law_deletions_that_did_not_fail_are_counted(steps: Seq<RecoveryStepView>, outcomes: Seq<Option<usize>>)
    ensures
        data_service::deleted(steps, outcomes) == tried(steps, outcomes).filter(
            |t: (RecoveryStepView, Option<usize>)| t.0 is DeleteDataset && t.1 is Some,
        ).len(),
    decreases steps.len(),
{
    reveal(Seq::filter);
    if steps.len() > 0 {
        law_deletions_that_did_not_fail_are_counted(steps.drop_last(), outcomes);
        assert(tried(steps, outcomes).drop_last() =~= tried(steps.drop_last(), outcomes));
        assert(tried(steps, outcomes).last() == (steps.last(), outcomes[steps.len() - 1]));
    }
}

/// The number of orphans purged is what the last purge that did not fail has said, and
/// none if there is no such purge.
pub proof fn law_the_last_purge_tells(steps: Seq<RecoveryStepView>, outcomes: Seq<Option<usize>>, i: int)
    requires
        -1 <= i < steps.len(),
        i >= 0 ==> steps[i] is PurgeOrphanTables && outcomes[i] is Some,
        forall|j: int|
            i < j < steps.len() ==> !((#[trigger] steps[j]) is PurgeOrphanTables && outcomes[j] is Some),
    ensures
        data_service::purged(steps, outcomes) == if i >= 0 {
            outcomes[i].unwrap()
        } else {
            0
        },
    decreases steps.len(),
{
    if steps.len() > 0 {
        let n = steps.len() - 1;
        assert(steps.last() == steps[n]);
        if i < n {
            let init = steps.drop_last();
            assert forall|j: int| i < j < init.len() implies !((#[trigger] init[j]) is PurgeOrphanTables
                && outcomes[j] is Some) by {
                assert(init[j] == steps[j]);
            }
            if i >= 0 {
                assert(init[i] == steps[i]);
            }
            law_the_last_purge_tells(init, outcomes, i);
        }
    }
}

/// What is said when no dataset could be started tells how many were configured.
pub proof fn law_a_total_failure_is_told(error: AllDatasetsFailed)
    ensures
        error.text() == "all "@ + text::decimal(error.configured_datasets as nat)
            + " configured dataset(s) failed to initialize; refusing to start"@,
{
}

} // verus!
