//! Starting the configured datasets.
use crate::text::{self, parse_unsigned, push_decimal};
use crate::types::{BlockNumber, DatasetId};
use vstd::prelude::*;

verus! {

/// There is no such dataset.
#[derive(Debug, PartialEq, Eq)]
pub struct UnknownDataset {
    pub dataset_id: DatasetId,
}

/// None of the configured datasets could be started.
#[derive(Clone, Copy, Debug, PartialEq, Eq, Structural)]
pub struct AllDatasetsFailed {
    pub configured_datasets: usize,
}

impl AllDatasetsFailed {
    /// What is said of it.
    pub open spec fn text(self) -> Seq<char> {
        "all "@ + text::decimal(self.configured_datasets as nat)
            + " configured dataset(s) failed to initialize; refusing to start"@
    }

    /// What is said of it.
    pub fn message(&self) -> (message: String)
        ensures
            message@ == self.text(),
    {
        let mut message: String = "all ".to_owned();
        push_decimal(&mut message, self.configured_datasets as u64);
        message.append(" configured dataset(s) failed to initialize; refusing to start");
        message
    }
}

/// How much of a dataset is kept, as it is configured.
#[derive(Debug, PartialEq, Eq)]
pub enum RetentionConfig {
    FromBlock { number: BlockNumber, parent_hash: Option<String> },
    Head(u64),
    /// It is set by request, up to a number of blocks.
    Api { max_blocks: Option<u64> },
    /// Nothing is said about it.
    Unset,
}

/// How much of a dataset is kept.
#[derive(Debug, PartialEq, Eq)]
pub enum RetentionStrategy {
    FromBlock { number: BlockNumber, parent_hash: Option<String> },
    Head(u64),
    /// Nothing is said about it.
    Unset,
}

impl RetentionConfig {
    /// The strategy that a dataset starts with, and the most blocks that it may be
    /// asked to keep.
    pub fn strategy(&self) -> (r: (RetentionStrategy, Option<u64>))
        ensures
            r == match *self {
                RetentionConfig::FromBlock { number, parent_hash } => (
                    RetentionStrategy::FromBlock { number, parent_hash },
                    None,
                ),
                RetentionConfig::Head(n) => (RetentionStrategy::Head(n), None),
                RetentionConfig::Api { max_blocks } => (RetentionStrategy::Unset, max_blocks),
                RetentionConfig::Unset => (RetentionStrategy::Unset, None),
            },
    {
        match self {
            RetentionConfig::FromBlock { number, parent_hash } => {
                let parent_hash: Option<String> = match parent_hash {
                    Some(hash) => Some(hash.clone()),
                    None => None,
                };
                (RetentionStrategy::FromBlock { number: *number, parent_hash }, None)
            },
            RetentionConfig::Head(n) => (RetentionStrategy::Head(*n), None),
            RetentionConfig::Api { max_blocks } => (RetentionStrategy::Unset, *max_blocks),
            RetentionConfig::Unset => (RetentionStrategy::Unset, None),
        }
    }
}

/// The names of datasets.
pub open spec fn names(ids: Seq<DatasetId>) -> Seq<Seq<char>> {
    ids.map_values(|id: DatasetId| id@)
}

/// The stored datasets that are not configured.
pub open spec fn not_configured(stored: Seq<Seq<char>>, configured: Seq<Seq<char>>) -> Seq<Seq<char>>
    decreases stored.len(),
{
    if stored.len() == 0 {
        Seq::empty()
    } else {
        let rest = not_configured(stored.drop_last(), configured);
        if configured.contains(stored.last()) {
            rest
        } else {
            rest.push(stored.last())
        }
    }
}

/// Whether the dataset is among those listed.
fn lists_dataset(ids: &Vec<DatasetId>, id: &DatasetId) -> (found: bool)
    ensures
        found == names(ids@).contains(id@),
{
    let mut i: usize = 0;
    while i < ids.len()
        invariant
            i <= ids.len(),
            forall|j: int| 0 <= j < i ==> (#[trigger] names(ids@)[j]) != id@,
        decreases ids.len() - i,
    {
        if ids[i].same(id) {
            assert(names(ids@)[i as int] == id@);
            return true;
        }
        i += 1;
    }
    false
}

/// The stored datasets that are not configured.
pub fn unconfigured_datasets(stored: &Vec<DatasetId>, configured: &Vec<DatasetId>) -> (unconfigured: Vec<DatasetId>)
    ensures
        names(unconfigured@) == not_configured(names(stored@), names(configured@)),
{
    let ghost all = names(stored@);
    let mut unconfigured: Vec<DatasetId> = Vec::new();
    let mut i: usize = 0;
    assert(all.take(0) =~= Seq::<Seq<char>>::empty());
    assert(names(unconfigured@) =~= Seq::empty());
    while i < stored.len()
        invariant
            i <= stored.len(),
            all == names(stored@),
            names(unconfigured@) == not_configured(all.take(i as int), names(configured@)),
        decreases stored.len() - i,
    {
        assert(all.take(i + 1).drop_last() =~= all.take(i as int));
        assert(all.take(i + 1).last() == stored@[i as int]@);
        if !lists_dataset(configured, &stored[i]) {
            let ghost before = unconfigured@;
            unconfigured.push(stored[i].clone());
            assert(names(unconfigured@) =~= names(before).push(stored@[i as int]@));
        }
        i += 1;
    }
    assert(all.take(all.len() as int) =~= all);
    unconfigured
}

/// A step of the recovery of disk space that comes before any dataset starts.
#[derive(Debug, PartialEq, Eq)]
pub enum RecoveryStep {
    /// Unlink the files that hold nothing needed. It takes no scratch space.
    ReclaimDiskSpace,
    /// Remove what unfinished writes have left over.
    PurgeOrphanTables,
    DeleteDataset(DatasetId),
}

/// What a [`RecoveryStep`] says.
pub enum RecoveryStepView {
    ReclaimDiskSpace,
    PurgeOrphanTables,
    DeleteDataset(Seq<char>),
}

impl View for RecoveryStep {
    type V = RecoveryStepView;

    open spec fn view(&self) -> RecoveryStepView {
        match self {
            RecoveryStep::ReclaimDiskSpace => RecoveryStepView::ReclaimDiskSpace,
            RecoveryStep::PurgeOrphanTables => RecoveryStepView::PurgeOrphanTables,
            RecoveryStep::DeleteDataset(id) => RecoveryStepView::DeleteDataset(id@),
        }
    }
}

/// What a list of steps says.
pub open spec fn step_views(steps: Seq<RecoveryStep>) -> Seq<RecoveryStepView> {
    steps.map_values(|s: RecoveryStep| s@)
}

/// The steps of the recovery: files are unlinked before the steps that write, and
/// once more after them. Datasets that are not configured are deleted in any case.
pub open spec fn recovery_steps(unconfigured: Seq<Seq<char>>, disk_reclaim: bool) -> Seq<RecoveryStepView> {
    let deletions = unconfigured.map_values(|id: Seq<char>| RecoveryStepView::DeleteDataset(id));
    if disk_reclaim {
        seq![RecoveryStepView::ReclaimDiskSpace, RecoveryStepView::PurgeOrphanTables] + deletions
            + seq![RecoveryStepView::ReclaimDiskSpace]
    } else {
        deletions
    }
}

/// The steps of the recovery of disk space. Each is to be tried whatever came of
/// those before it.
///
/// The order matters on a disk that is nearly full: unlinking needs no space, so it
/// makes room for the steps that write; and those let a second pass unlink more.
pub fn startup_disk_recovery(unconfigured: &Vec<DatasetId>, disk_reclaim: bool) -> (steps: Vec<RecoveryStep>)
    ensures
        step_views(steps@) == recovery_steps(names(unconfigured@), disk_reclaim),
{
    let ghost deletions = names(unconfigured@).map_values(|id: Seq<char>| RecoveryStepView::DeleteDataset(id));
    let mut steps: Vec<RecoveryStep> = Vec::new();
    if disk_reclaim {
        steps.push(RecoveryStep::ReclaimDiskSpace);
        steps.push(RecoveryStep::PurgeOrphanTables);
    }
    let ghost first = step_views(steps@);
    let mut i: usize = 0;
    assert(first + deletions.take(0) =~= first);
    while i < unconfigured.len()
        invariant
            i <= unconfigured.len(),
            deletions == names(unconfigured@).map_values(|id: Seq<char>| RecoveryStepView::DeleteDataset(id)),
            step_views(steps@) == first + deletions.take(i as int),
        decreases unconfigured.len() - i,
    {
        let ghost before = steps@;
        steps.push(RecoveryStep::DeleteDataset(unconfigured[i].clone()));
        assert(step_views(steps@) =~= step_views(before).push(deletions[i as int]));
        assert(first + deletions.take(i as int).push(deletions[i as int]) =~= first + deletions.take(i + 1));
        i += 1;
    }
    assert(deletions.take(i as int) =~= deletions);
    if disk_reclaim {
        let ghost before = steps@;
        steps.push(RecoveryStep::ReclaimDiskSpace);
        assert(step_views(steps@) =~= step_views(before).push(RecoveryStepView::ReclaimDiskSpace));
    }
    assert(step_views(steps@) =~= recovery_steps(names(unconfigured@), disk_reclaim));
    steps
}

/// What the recovery has achieved.
#[derive(Clone, Copy, Debug, PartialEq, Eq, Structural)]
pub struct RecoveryReport {
    pub orphans_purged: usize,
    pub unconfigured_deleted: usize,
    /// Unknown unless the size was known both before and after.
    pub freed_bytes: Option<u64>,
}

/// How many orphans the steps have purged: what the last purge that succeeded has
/// said.
pub open spec fn purged(steps: Seq<RecoveryStepView>, outcomes: Seq<Option<usize>>) -> usize
    decreases steps.len(),
{
    if steps.len() == 0 {
        0
    } else if steps.last() is PurgeOrphanTables && outcomes[steps.len() - 1] is Some {
        outcomes[steps.len() - 1].unwrap()
    } else {
        purged(steps.drop_last(), outcomes)
    }
}

/// How many datasets the steps have deleted.
pub open spec fn deleted(steps: Seq<RecoveryStepView>, outcomes: Seq<Option<usize>>) -> nat
    decreases steps.len(),
{
    if steps.len() == 0 {
        0
    } else if steps.last() is DeleteDataset && outcomes[steps.len() - 1] is Some {
        deleted(steps.drop_last(), outcomes) + 1
    } else {
        deleted(steps.drop_last(), outcomes)
    }
}

/// Sums up the recovery. An outcome is missing where the step has failed; that of a
/// purge says how many orphans there were.
pub fn recovery_report(
    steps: &Vec<RecoveryStep>,
    outcomes: &Vec<Option<usize>>,
    bytes_before: Option<u64>,
    bytes_after: Option<u64>,
) -> (report: RecoveryReport)
    requires
        outcomes@.len() == steps@.len(),
    ensures
        report.orphans_purged == purged(step_views(steps@), outcomes@),
        report.unconfigured_deleted == deleted(step_views(steps@), outcomes@),
        report.freed_bytes == match (bytes_before, bytes_after) {
            (Some(before), Some(after)) => Some(
                if before >= after {
                    (before - after) as u64
                } else {
                    0u64
                },
            ),
            _ => None,
        },
{
    let ghost all = step_views(steps@);
    let mut orphans_purged: usize = 0;
    let mut unconfigured_deleted: usize = 0;
    let mut i: usize = 0;
    assert(all.take(0) =~= Seq::<RecoveryStepView>::empty());
    while i < steps.len()
        invariant
            i <= steps.len(),
            outcomes@.len() == steps@.len(),
            all == step_views(steps@),
            orphans_purged == purged(all.take(i as int), outcomes@),
            unconfigured_deleted == deleted(all.take(i as int), outcomes@),
            unconfigured_deleted <= i,
        decreases steps.len() - i,
    {
        assert(all.take(i + 1).drop_last() =~= all.take(i as int));
        assert(all.take(i + 1).last() == steps@[i as int]@);
        match (&steps[i], outcomes[i]) {
            (RecoveryStep::PurgeOrphanTables, Some(n)) => {
                orphans_purged = n;
            },
            (RecoveryStep::DeleteDataset(_), Some(_)) => {
                unconfigured_deleted += 1;
            },
            _ => {},
        }
        i += 1;
    }
    assert(all.take(all.len() as int) =~= all);
    let freed_bytes: Option<u64> = match (bytes_before, bytes_after) {
        (Some(before), Some(after)) => Some(before.saturating_sub(after)),
        _ => None,
    };
    RecoveryReport { orphans_purged, unconfigured_deleted, freed_bytes }
}

/// The size that the database has answered, where it has answered a number.
pub fn table_sst_bytes(answer: Option<&str>) -> (bytes: Option<u64>)
    ensures
        bytes == match answer {
            Some(value) => text::unsigned_value(value@),
            None => None,
        },
{
    match answer {
        Some(value) => parse_unsigned(value),
        None => None,
    }
}

/// The datasets among the outcomes that were started, in order.
pub open spec fn started<T, E>(outcomes: Seq<(DatasetId, Result<T, E>)>) -> Seq<(DatasetId, T)>
    decreases outcomes.len(),
{
    if outcomes.len() == 0 {
        Seq::empty()
    } else {
        let rest = started(outcomes.drop_last());
        match outcomes.last().1 {
            Ok(controller) => rest.push((outcomes.last().0, controller)),
            Err(_) => rest,
        }
    }
}

/// The datasets among the outcomes that failed, in order.
pub open spec fn failed<T, E>(outcomes: Seq<(DatasetId, Result<T, E>)>) -> Seq<DatasetId>
    decreases outcomes.len(),
{
    if outcomes.len() == 0 {
        Seq::empty()
    } else {
        let rest = failed(outcomes.drop_last());
        match outcomes.last().1 {
            Ok(_) => rest,
            Err(_) => rest.push(outcomes.last().0),
        }
    }
}

/// The controllers by the names of their datasets; the last one of a name counts.
pub open spec fn by_name<T>(entries: Seq<(DatasetId, T)>) -> Map<Seq<char>, T>
    decreases entries.len(),
{
    if entries.len() == 0 {
        Map::empty()
    } else {
        by_name(entries.drop_last()).insert(entries.last().0@, entries.last().1)
    }
}

/// For each dataset whether it was started: first those that were, then those that
/// were not.
pub open spec fn readiness<T, E>(outcomes: Seq<(DatasetId, Result<T, E>)>) -> Seq<(Seq<char>, bool)> {
    started(outcomes).map_values(|e: (DatasetId, T)| (e.0@, true)) + failed(outcomes).map_values(
        |id: DatasetId| (id@, false),
    )
}

/// What a list of readiness reports says.
pub open spec fn readiness_views(list: Seq<(DatasetId, bool)>) -> Seq<(Seq<char>, bool)> {
    list.map_values(|r: (DatasetId, bool)| (r.0@, r.1))
}

/// The datasets that are served.
pub struct DataService<T> {
    datasets: Vec<(DatasetId, T)>,
}

impl<T> View for DataService<T> {
    type V = Map<Seq<char>, T>;

    closed spec fn view(&self) -> Map<Seq<char>, T> {
        by_name(self.datasets@)
    }
}

impl<T> DataService<T> {
    /// Starts serving the datasets that could be started. That one of them failed
    /// does not keep the others from being served; only if every configured one
    /// failed, nothing is served. What is to be reported of each dataset comes
    /// first, and comes in any case.
    pub fn start<E>(configured_datasets: usize, outcomes: Vec<(DatasetId, Result<T, E>)>) -> (r: (
        Vec<(DatasetId, bool)>,
        Result<DataService<T>, AllDatasetsFailed>,
    ))
        ensures
            readiness_views(r.0@) == readiness(outcomes@),
            r.1 is Err == (configured_datasets > 0 && started(outcomes@).len() == 0),
            r.1 matches Ok(service) ==> service@ == by_name(started(outcomes@)),
            r.1 matches Err(e) ==> e == (AllDatasetsFailed { configured_datasets }),
    {
        let (ready, not_ready): (Vec<(DatasetId, T)>, Vec<DatasetId>) = Self::partition_boot_outcomes(outcomes);
        let mut reports: Vec<(DatasetId, bool)> = Vec::new();
        let ghost ups = started(outcomes@).map_values(|e: (DatasetId, T)| (e.0@, true));
        let ghost downs = failed(outcomes@).map_values(|id: DatasetId| (id@, false));
        let mut i: usize = 0;
        assert(readiness_views(reports@) =~= ups.take(0));
        while i < ready.len()
            invariant
                i <= ready.len(),
                ready@ == started(outcomes@),
                ups == started(outcomes@).map_values(|e: (DatasetId, T)| (e.0@, true)),
                readiness_views(reports@) == ups.take(i as int),
            decreases ready.len() - i,
        {
            let ghost before = reports@;
            reports.push((ready[i].0.clone(), true));
            assert(readiness_views(reports@) =~= readiness_views(before).push(ups[i as int]));
            assert(ups.take(i as int).push(ups[i as int]) =~= ups.take(i + 1));
            i += 1;
        }
        assert(ups.take(i as int) =~= ups);
        let mut j: usize = 0;
        assert(ups + downs.take(0) =~= ups);
        while j < not_ready.len()
            invariant
                j <= not_ready.len(),
                not_ready@ == failed(outcomes@),
                downs == failed(outcomes@).map_values(|id: DatasetId| (id@, false)),
                readiness_views(reports@) == ups + downs.take(j as int),
            decreases not_ready.len() - j,
        {
            let ghost before = reports@;
            reports.push((not_ready[j].clone(), false));
            assert(readiness_views(reports@) =~= readiness_views(before).push(downs[j as int]));
            assert(ups + downs.take(j as int).push(downs[j as int]) =~= ups + downs.take(j + 1));
            j += 1;
        }
        assert(downs.take(j as int) =~= downs);
        match Self::enforce_all_fail_floor(configured_datasets, ready.len()) {
            Ok(_) => (reports, Ok(DataService { datasets: ready })),
            Err(error) => (reports, Err(error)),
        }
    }

    /// Tells the datasets that were started from those that failed.
    pub fn partition_boot_outcomes<E>(outcomes: Vec<(DatasetId, Result<T, E>)>) -> (r: (
        Vec<(DatasetId, T)>,
        Vec<DatasetId>,
    ))
        ensures
            r.0@ == started(outcomes@),
            r.1@ == failed(outcomes@),
    {
        let mut ready: Vec<(DatasetId, T)> = Vec::new();
        let mut not_ready: Vec<DatasetId> = Vec::new();
        let ghost all = outcomes@;
        assert(all.take(0) =~= Seq::<(DatasetId, Result<T, E>)>::empty());
        for outcome in it: outcomes.into_iter()
            invariant
                it.seq() == all,
                ready@ == started(all.take(it.index() as int)),
                not_ready@ == failed(all.take(it.index() as int)),
        {
            let ghost i = it.index() as int;
            assert(all.take(i + 1).drop_last() =~= all.take(i));
            assert(all.take(i + 1).last() == outcome);
            let (dataset_id, result) = outcome;
            match result {
                Ok(controller) => {
                    ready.push((dataset_id, controller));
                },
                Err(_) => {
                    not_ready.push(dataset_id);
                },
            }
        }
        assert(all.take(all.len() as int) =~= all);
        (ready, not_ready)
    }

    /// Refuses to start if every configured dataset failed, so that this cannot pass
    /// for a healthy service without data. With nothing configured, the service
    /// starts.
    pub fn enforce_all_fail_floor(configured_datasets: usize, ready_datasets: usize) -> (r: Result<
        (),
        AllDatasetsFailed,
    >)
        ensures
            r is Err == (configured_datasets > 0 && ready_datasets == 0),
            r matches Err(e) ==> e == (AllDatasetsFailed { configured_datasets }),
    {
        if configured_datasets > 0 && ready_datasets == 0 {
            return Err(AllDatasetsFailed { configured_datasets });
        }
        Ok(())
    }

    /// The controller of a dataset.
    pub fn get_dataset(&self, dataset_id: &DatasetId) -> (r: Result<&T, UnknownDataset>)
        ensures
            r is Ok == self@.contains_key(dataset_id@),
            r matches Ok(controller) ==> *controller == self@[dataset_id@],
            r matches Err(e) ==> e.dataset_id@ == dataset_id@,
    {
        let mut i: usize = self.datasets.len();
        assert(self.datasets@.take(i as int) =~= self.datasets@);
        while i > 0
            invariant
                i <= self.datasets.len(),
                by_name(self.datasets@.take(i as int)).contains_key(dataset_id@) == self@.contains_key(dataset_id@),
                self@.contains_key(dataset_id@) ==> by_name(self.datasets@.take(i as int))[dataset_id@]
                    == self@[dataset_id@],
            decreases i,
        {
            assert(self.datasets@.take(i as int).drop_last() =~= self.datasets@.take(i - 1));
            assert(self.datasets@.take(i as int).last() == self.datasets@[i - 1]);
            if self.datasets[i - 1].0.same(dataset_id) {
                return Ok(&self.datasets[i - 1].1);
            }
            i -= 1;
        }
        Err(UnknownDataset { dataset_id: dataset_id.clone() })
    }
}

} // verus!
