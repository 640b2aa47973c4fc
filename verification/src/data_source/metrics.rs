//! What ingestion counts.
use crate::duration::Duration;
use crate::prom::{count_event, new_family, one_label, read_count, register_family, two_labels};
use crate::prom::{self, CounterFamily, LabelKey, Labels};
use prometheus_client::registry::Registry;
use vstd::prelude::*;

verus! {

/// The counter families of [`IngestMetrics`].
#[derive(Clone, Copy, Debug)]
pub enum IngestFamily {
    SourceErrors,
    ForkSignals,
    LinkageRejects,
}

/// The ingestion counters, and the fork-consensus times that wait to be observed.
pub struct IngestMetrics {
    source_errors: CounterFamily,
    fork_signals: CounterFamily,
    linkage_rejects: CounterFamily,
    fork_consensus: Vec<(Labels, Duration)>,
}

/// What [`IngestMetrics`] hold.
pub struct IngestMetricsView {
    /// Upstream errors by `source` endpoint and `kind`.
    pub source_errors: Map<LabelKey, u64>,
    /// Fork signals by `source` and whether it held the contested position
    /// (`at_tip` or `above_tip`).
    pub fork_signals: Map<LabelKey, u64>,
    /// Well-formed blocks that did not extend the chain at the current position,
    /// by `source` and `reason`.
    pub linkage_rejects: Map<LabelKey, u64>,
    /// Times from the first fork signal to a fork decision, by `decision`, in the
    /// order in which they were taken.
    pub fork_consensus: Seq<(LabelKey, nat)>,
    /// Which counters these are.
    pub counters: IngestCounters,
}

/// Which counters [`IngestMetrics`] keep.
pub struct IngestCounters {
    pub source_errors: int,
    pub fork_signals: int,
    pub linkage_rejects: int,
}

impl IngestCounters {
    /// The counters of a family.
    pub open spec fn of(self, family: IngestFamily) -> int {
        match family {
            IngestFamily::SourceErrors => self.source_errors,
            IngestFamily::ForkSignals => self.fork_signals,
            IngestFamily::LinkageRejects => self.linkage_rejects,
        }
    }
}

/// Label sets and nanoseconds of a list of observations.
pub open spec fn observation_views(list: Seq<(Labels, Duration)>) -> Seq<(LabelKey, nat)> {
    list.map_values(|o: (Labels, Duration)| (prom::label_key(o.0@), o.1@))
}

/// The label set `{source, kind}`.
pub open spec fn source_error_key(source: Seq<char>, kind: Seq<char>) -> LabelKey {
    seq![("source"@, source), ("kind"@, kind)]
}

/// The label set `{source, reason}`.
pub open spec fn linkage_reject_key(source: Seq<char>, reason: Seq<char>) -> LabelKey {
    seq![("source"@, source), ("reason"@, reason)]
}

/// The label set `{source, standing}`.
pub open spec fn fork_signal_key(source: Seq<char>, standing: Seq<char>) -> LabelKey {
    seq![("source"@, source), ("standing"@, standing)]
}

/// The label set `{decision}`.
pub open spec fn fork_consensus_key(decision: Seq<char>) -> LabelKey {
    seq![("decision"@, decision)]
}

impl View for IngestMetrics {
    type V = IngestMetricsView;

    closed spec fn view(&self) -> IngestMetricsView {
        IngestMetricsView {
            source_errors: self.source_errors@,
            fork_signals: self.fork_signals@,
            linkage_rejects: self.linkage_rejects@,
            fork_consensus: observation_views(self.fork_consensus@),
            counters: IngestCounters {
                source_errors: prom::family_counters(self.source_errors),
                fork_signals: prom::family_counters(self.fork_signals),
                linkage_rejects: prom::family_counters(self.linkage_rejects),
            },
        }
    }
}

impl IngestMetrics {
    /// Metrics that have counted nothing.
    pub fn new() -> (metrics: Self)
        ensures
            metrics@ == (IngestMetricsView {
                source_errors: Map::empty(),
                fork_signals: Map::empty(),
                linkage_rejects: Map::empty(),
                fork_consensus: Seq::empty(),
                counters: metrics@.counters,
            }),
    {
        let metrics: IngestMetrics = IngestMetrics {
            source_errors: new_family(),
            fork_signals: new_family(),
            linkage_rejects: new_family(),
            fork_consensus: Vec::new(),
        };
        proof {
            prom::lemma_no_counts(metrics.source_errors@);
            prom::lemma_no_counts(metrics.fork_signals@);
            prom::lemma_no_counts(metrics.linkage_rejects@);
            assert(observation_views(metrics.fork_consensus@) =~= Seq::empty());
        }
        metrics
    }

    /// How many errors of `kind` the endpoint `source` caused.
    pub fn source_errors(&self, source: &str, kind: &str) -> (n: u64)
        ensures
            n == prom::count_of(self@.source_errors, source_error_key(source@, kind@)),
    {
        let labels: Labels = two_labels("source", source, "kind", kind);
        read_count(&self.source_errors, &labels).unwrap_or(0)
    }

    /// How many fork signals the endpoint `source` gave with that `standing`.
    pub fn fork_signals(&self, source: &str, standing: &str) -> (n: u64)
        ensures
            n == prom::count_of(self@.fork_signals, fork_signal_key(source@, standing@)),
    {
        let labels: Labels = two_labels("source", source, "standing", standing);
        read_count(&self.fork_signals, &labels).unwrap_or(0)
    }

    /// How many blocks of the endpoint `source` were rejected for `reason`.
    pub fn linkage_rejects(&self, source: &str, reason: &str) -> (n: u64)
        ensures
            n == prom::count_of(self@.linkage_rejects, linkage_reject_key(source@, reason@)),
    {
        let labels: Labels = two_labels("source", source, "reason", reason);
        read_count(&self.linkage_rejects, &labels).unwrap_or(0)
    }

    /// Hands out the fork-consensus times taken since the last call, oldest first.
    pub fn take_fork_consensus(&mut self) -> (observations: Vec<(Labels, Duration)>)
        ensures
            observation_views(observations@) == old(self)@.fork_consensus,
            final(self)@ == (IngestMetricsView { fork_consensus: Seq::empty(), ..old(self)@ }),
    {
        let mut observations: Vec<(Labels, Duration)> = Vec::new();
        observations.append(&mut self.fork_consensus);
        assert(observation_views(self.fork_consensus@) =~= Seq::empty());
        assert(observations@ =~= old(self).fork_consensus@);
        observations
    }

    /// Registers one of the counter families.
    pub fn register(&self, family: IngestFamily, registry: &mut Registry, name: &str, help: &str)
        ensures
            prom::registered(*final(registry)) == prom::registered(*old(registry)).push(
                prom::registration(name@, help@, self@.counters.of(family)),
            ),
            prom::registry_prefix(*final(registry)) == prom::registry_prefix(*old(registry)),
            prom::sub_registries(*final(registry)) == prom::sub_registries(*old(registry)),
    {
        match family {
            IngestFamily::SourceErrors => register_family(registry, name, help, &self.source_errors),
            IngestFamily::ForkSignals => register_family(registry, name, help, &self.fork_signals),
            IngestFamily::LinkageRejects => register_family(registry, name, help, &self.linkage_rejects),
        }
    }
}

/// Counts an upstream error. The probe of the chain head that runs before
/// ingestion feeds the same counter.
pub fn record_ingest_source_error(metrics: &mut IngestMetrics, source: &str, kind: &str)
    ensures
        final(metrics)@ == (IngestMetricsView {
            source_errors: prom::counted(old(metrics)@.source_errors, source_error_key(source@, kind@)),
            ..old(metrics)@
        }),
{
    let labels: Labels = two_labels("source", source, "kind", kind);
    count_event(&mut metrics.source_errors, &labels);
}

/// Counts a block that did not extend the chain.
pub fn record_ingest_linkage_reject(metrics: &mut IngestMetrics, source: &str, reason: &str)
    ensures
        final(metrics)@ == (IngestMetricsView {
            linkage_rejects: prom::counted(old(metrics)@.linkage_rejects, linkage_reject_key(source@, reason@)),
            ..old(metrics)@
        }),
{
    let labels: Labels = two_labels("source", source, "reason", reason);
    count_event(&mut metrics.linkage_rejects, &labels);
}

/// Counts a fork signal.
pub fn record_ingest_fork_signal(metrics: &mut IngestMetrics, source: &str, standing: &str)
    ensures
        final(metrics)@ == (IngestMetricsView {
            fork_signals: prom::counted(old(metrics)@.fork_signals, fork_signal_key(source@, standing@)),
            ..old(metrics)@
        }),
{
    let labels: Labels = two_labels("source", source, "standing", standing);
    count_event(&mut metrics.fork_signals, &labels);
}

/// Takes down how long a fork decision took.
pub fn record_ingest_fork_consensus_duration(metrics: &mut IngestMetrics, decision: &str, duration: Duration)
    ensures
        final(metrics)@ == (IngestMetricsView {
            fork_consensus: old(metrics)@.fork_consensus.push((fork_consensus_key(decision@), duration@)),
            ..old(metrics)@
        }),
{
    let labels: Labels = one_label("decision", decision);
    metrics.fork_consensus.push((labels, duration));
    assert(observation_views(metrics.fork_consensus@) =~= old(metrics)@.fork_consensus.push(
        (fork_consensus_key(decision@), duration@),
    ));
}

} // verus!
