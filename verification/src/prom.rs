//! Counters exposed to the metrics scraper.
//!
//! Counting is done by `prometheus_client`. A [`CounterFamily`] maps each label
//! set to a count of its own; a plain counter has a single count. The counts are
//! spoken of as mathematical values, so that whoever records an event can say
//! exactly which count went up.
use prometheus_client::metrics::counter::Counter;
use prometheus_client::metrics::family::Family;
use prometheus_client::metrics::histogram::Histogram;
use prometheus_client::registry::Registry;
use vstd::prelude::*;

verus! {

/// A label set: label names with their values, in order.
pub type Labels = Vec<(&'static str, String)>;

/// The text of a label set, by which a count is found again.
pub type LabelKey = Seq<(Seq<char>, Seq<char>)>;

/// The text of the label set `labels`.
pub open spec fn label_key(labels: Seq<(&'static str, String)>) -> LabelKey {
    labels.map_values(|l: (&'static str, String)| (l.0@, l.1@))
}

/// The count that follows `n`; the largest count is followed by zero.
pub open spec fn next_count(n: u64) -> u64 {
    if n == u64::MAX {
        0
    } else {
        (n + 1) as u64
    }
}

/// The count kept for `key`: zero where nothing was counted yet.
pub open spec fn count_of(counts: Map<LabelKey, u64>, key: LabelKey) -> u64 {
    if counts.contains_key(key) {
        counts[key]
    } else {
        0
    }
}

/// The counts after one more event labelled `key`.
pub open spec fn counted(counts: Map<LabelKey, u64>, key: LabelKey) -> Map<LabelKey, u64> {
    counts.insert(key, next_count(count_of(counts, key)))
}

/// `prometheus_client`'s single counter.
#[verifier::external_type_specification]
#[verifier::external_body]
#[verifier::reject_recursive_types(N)]
#[verifier::reject_recursive_types(A)]
pub struct ExCounter<N, A>(Counter<N, A>);

/// `prometheus_client`'s registry of metrics.
#[verifier::external_type_specification]
#[verifier::external_body]
pub struct ExRegistry(Registry);

/// Counters told apart by their label sets.
#[verifier::external_body]
pub struct CounterFamily {
    family: Family<Labels, Counter>,
}

/// Distributions told apart by their label sets.
#[verifier::external_body]
pub struct DistributionFamily {
    pub family: Family<Labels, Histogram>,
}

/// A metric as it was registered: its name, its help text, and which counters or
/// distributions it shows.
pub struct Registration {
    pub name: Seq<char>,
    pub help: Seq<char>,
    pub shows: int,
}

/// What a family holds: each label set that was ever counted, with its count.
pub uninterp spec fn family_counts(family: CounterFamily) -> Map<LabelKey, u64>;

/// Which counters a family keeps. It keeps the same ones whatever it counts; the
/// number only tells them from others.
pub uninterp spec fn family_counters(family: CounterFamily) -> int;

/// What a single counter holds.
pub uninterp spec fn counter_value(counter: Counter) -> u64;

/// Which counter a single counter is. It is the same one whatever it counts; the
/// number only tells it from others.
pub uninterp spec fn counter_itself(counter: Counter) -> int;

/// Which distributions a family keeps. The number only tells them from others.
pub uninterp spec fn family_distributions(family: DistributionFamily) -> int;

/// What was registered with a registry itself (its sub-registries aside), in order.
pub uninterp spec fn registered(registry: Registry) -> Seq<Registration>;

/// What a registry puts in front of the names that are registered with it, and an
/// underscore after that.
pub uninterp spec fn registry_prefix(registry: Registry) -> Option<Seq<char>>;

/// The sub-registries of a registry, in order: the prefix of each, and what was
/// registered with it.
pub uninterp spec fn sub_registries(registry: Registry) -> Seq<(Option<Seq<char>>, Seq<Registration>)>;

/// The prefix of a sub-registry that a registry with the prefix `outer` was asked for
/// with `inner`.
pub open spec fn nested_prefix(outer: Option<Seq<char>>, inner: Seq<char>) -> Seq<char> {
    match outer {
        Some(prefix) => prefix + "_"@ + inner,
        None => inner,
    }
}

/// A metric registered under `name`. Its help text gets a full stop.
pub open spec fn registration(name: Seq<char>, help: Seq<char>, shows: int) -> Registration {
    Registration { name, help: help.push('.'), shows }
}

impl View for CounterFamily {
    type V = Map<LabelKey, u64>;

    open spec fn view(&self) -> Map<LabelKey, u64> {
        family_counts(*self)
    }
}

/// Calls `Family::default`, which holds no label set yet.
#[verifier::external_body]
pub(crate) fn new_family() -> (family: CounterFamily)
    ensures
        family_counts(family).dom() == Set::<LabelKey>::empty(),
{
    CounterFamily { family: Family::default() }
}

/// Calls `Family::get_or_create`, which adds the label set at zero where it is
/// missing, and `Counter::inc` on what it finds: the one count goes up by one,
/// from the largest 64-bit value round to zero, and no other count changes.
#[verifier::external_body]
pub(crate) fn count_event(family: &mut CounterFamily, labels: &Labels)
    ensures
        family_counters(*final(family)) == family_counters(*old(family)),
        family_counts(*final(family)) == counted(family_counts(*old(family)), label_key(labels@)),
{
    family.family.get_or_create(labels).inc();
}

/// Calls `Family::get`, which finds nothing for a label set never counted, and
/// `Counter::get` on what it finds.
#[verifier::external_body]
pub(crate) fn read_count(family: &CounterFamily, labels: &Labels) -> (n: Option<u64>)
    ensures
        n == (if family_counts(*family).contains_key(label_key(labels@)) {
            Some(family_counts(*family)[label_key(labels@)])
        } else {
            None
        }),
{
    family.family.get(labels).map(|counter| counter.get())
}

/// Calls `Registry::register` with a clone of the family, which keeps the same
/// counters: it comes last, with the name and the help text, which gets a full stop.
/// What is shown for it are the counts at the time of showing; of that nothing is
/// said here.
#[verifier::external_body]
pub(crate) fn register_family(registry: &mut Registry, name: &str, help: &str, family: &CounterFamily)
    ensures
        registered(*final(registry)) == registered(*old(registry)).push(
            registration(name@, help@, family_counters(*family)),
        ),
        registry_prefix(*final(registry)) == registry_prefix(*old(registry)),
        sub_registries(*final(registry)) == sub_registries(*old(registry)),
{
    registry.register(name, help, family.family.clone())
}

/// Calls `Registry::register` with a clone of the family, which keeps the same
/// distributions: it comes last, with the name and the help text, which gets a full
/// stop. What is shown for it is what was observed until then; of that nothing is
/// said here.
#[verifier::external_body]
pub(crate) fn register_distribution(registry: &mut Registry, name: &str, help: &str, family: &DistributionFamily)
    ensures
        registered(*final(registry)) == registered(*old(registry)).push(
            registration(name@, help@, family_distributions(*family)),
        ),
        registry_prefix(*final(registry)) == registry_prefix(*old(registry)),
        sub_registries(*final(registry)) == sub_registries(*old(registry)),
{
    registry.register(name, help, family.family.clone())
}

/// Calls `Registry::default`, which has no prefix, nothing registered and no
/// sub-registry.
#[verifier::external_body]
pub(crate) fn new_registry() -> (registry: Registry)
    ensures
        registry_prefix(registry) is None,
        registered(registry) == Seq::<Registration>::empty(),
        sub_registries(registry).len() == 0,
{
    Registry::default()
}

/// Calls `Registry::sub_registry_with_prefix`, which adds a sub-registry with nothing
/// registered and lends it out. It comes last, as it is when it is given back; its
/// prefix is part of it.
#[verifier::external_body]
pub(crate) fn sub_registry<'a>(registry: &'a mut Registry, prefix: &str) -> (sub: &'a mut Registry)
    ensures
        registry_prefix(*sub) == Some(nested_prefix(registry_prefix(*old(registry)), prefix@)),
        registered(*sub) == Seq::<Registration>::empty(),
        sub_registries(*sub).len() == 0,
        registry_prefix(*final(registry)) == registry_prefix(*old(registry)),
        registered(*final(registry)) == registered(*old(registry)),
        sub_registries(*final(registry)) == sub_registries(*old(registry)).push(
            (registry_prefix(*final(sub)), registered(*final(sub))),
        ),
{
    registry.sub_registry_with_prefix(prefix)
}

/// Calls `Counter::default`, which counts from zero.
#[verifier::external_body]
pub(crate) fn new_counter() -> (counter: Counter)
    ensures
        counter_value(counter) == 0,
{
    Counter::default()
}

/// Calls `Counter::inc`, which goes up by one, from the largest 64-bit value
/// round to zero.
#[verifier::external_body]
pub(crate) fn count_one(counter: &mut Counter)
    ensures
        counter_itself(*final(counter)) == counter_itself(*old(counter)),
        counter_value(*final(counter)) == next_count(counter_value(*old(counter))),
{
    counter.inc();
}

/// Calls `Counter::get`.
#[verifier::external_body]
pub(crate) fn read_counter(counter: &Counter) -> (n: u64)
    ensures
        n == counter_value(*counter),
{
    counter.get()
}

/// Calls `Registry::register` with a clone of the counter, which is the same counter:
/// it comes last, with the name and the help text, which gets a full stop. What is
/// shown for it is the count at the time of showing; of that nothing is said here.
#[verifier::external_body]
pub(crate) fn register_counter(registry: &mut Registry, name: &str, help: &str, counter: &Counter)
    ensures
        registered(*final(registry)) == registered(*old(registry)).push(
            registration(name@, help@, counter_itself(*counter)),
        ),
        registry_prefix(*final(registry)) == registry_prefix(*old(registry)),
        sub_registries(*final(registry)) == sub_registries(*old(registry)),
{
    registry.register(name, help, counter.clone())
}

/// An empty family.
pub proof fn lemma_no_counts(counts: Map<LabelKey, u64>)
    requires
        counts.dom() == Set::<LabelKey>::empty(),
    ensures
        counts == Map::<LabelKey, u64>::empty(),
{
    assert(counts =~= Map::<LabelKey, u64>::empty());
}

/// A label set of two labels.
pub fn two_labels(name_a: &'static str, a: &str, name_b: &'static str, b: &str) -> (labels: Labels)
    ensures
        label_key(labels@) == seq![(name_a@, a@), (name_b@, b@)],
{
    let mut labels: Labels = Vec::new();
    labels.push((name_a, a.to_owned()));
    labels.push((name_b, b.to_owned()));
    assert(label_key(labels@) =~= seq![(name_a@, a@), (name_b@, b@)]);
    labels
}

/// A label set of one label.
pub fn one_label(name: &'static str, value: &str) -> (labels: Labels)
    ensures
        label_key(labels@) == seq![(name@, value@)],
{
    let mut labels: Labels = Vec::new();
    labels.push((name, value.to_owned()));
    assert(label_key(labels@) =~= seq![(name@, value@)]);
    labels
}

/// A copy of `labels`.
pub fn copy_labels(labels: &Labels) -> (copy: Labels)
    ensures
        label_key(copy@) == label_key(labels@),
{
    let mut copy: Labels = Vec::new();
    let mut i: usize = 0;
    while i < labels.len()
        invariant
            i <= labels.len(),
            copy.len() == i,
            forall|j: int|
                0 <= j < i ==> (#[trigger] copy@[j]).0@ == labels@[j].0@ && copy@[j].1@ == labels@[j].1@,
        decreases labels.len() - i,
    {
        copy.push((labels[i].0, labels[i].1.clone()));
        i += 1;
    }
    assert(label_key(copy@) =~= label_key(labels@));
    copy
}

} // verus!
