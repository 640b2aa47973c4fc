//! What the gauges show, and of what.
use crate::prom::{self, Labels};
use crate::service::collectors::{
    self, DatasetReading, Gauge, GaugeValue, GaugeValueView, GaugeView, LastChunkMissing, ParsedStatistic,
    RocksDbReading, StatisticView,
};
use crate::service::query_laws;
use crate::text;
use crate::types::{ChunkView, DatasetId, DatasetLabelView};
use vstd::prelude::*;

verus! {

/// The places from zero to before `n` at which `holds`, in order.
pub open spec fn places(n: nat, holds: spec_fn(int) -> bool) -> Seq<int> {
    Seq::new(n, |i: int| i).filter(holds)
}

proof fn lemma_next_place(n: nat, holds: spec_fn(int) -> bool)
    ensures
        places(n + 1, holds) == if holds(n as int) {
            places(n, holds).push(n as int)
        } else {
            places(n, holds)
        },
        places(0, holds) == Seq::<int>::empty(),
{
    reveal(Seq::filter);
    let all = Seq::new(n + 1, |i: int| i);
    assert(all.drop_last() =~= Seq::new(n, |i: int| i));
    assert(all.last() == n);
}

/// Each column family that has answered is shown with the value it has answered, under
/// its own name; the others are left out.
pub proof fn law_answers_are_shown_by_family(families: Seq<String>, values: Seq<Option<u64>>, n: nat)
    ensures
        collectors::family_samples(families, values, n) == places(n, |i: int| values[i] is Some).map_values(
            |i: int| (seq![("cf"@, families[i]@)], GaugeValueView::Unsigned(values[i].unwrap())),
        ),
    decreases n,
{
    let answered = |i: int| values[i] is Some;
    let sample = |i: int| (seq![("cf"@, families[i]@)], GaugeValueView::Unsigned(values[i].unwrap()));
    if n == 0 {
        lemma_next_place(0, answered);
        assert(places(0, answered).map_values(sample) =~= Seq::empty());
    } else {
        let m = (n - 1) as nat;
        law_answers_are_shown_by_family(families, values, m);
        lemma_next_place(m, answered);
        if answered(m as int) {
            assert(places(n, answered).map_values(sample) =~= places(m, answered).map_values(sample).push(
                sample(m as int),
            ));
        }
    }
}

proof fn lemma_no_places(n: nat, holds: spec_fn(int) -> bool)
    ensures
        places(n, holds).len() == 0 <==> forall|i: int| 0 <= i < n ==> !(#[trigger] holds(i)),
    decreases n,
{
    if n == 0 {
        lemma_next_place(0, holds);
    } else {
        let m = (n - 1) as nat;
        lemma_no_places(m, holds);
        lemma_next_place(m, holds);
        if forall|i: int| 0 <= i < m ==> !(#[trigger] holds(i)) {
            if !holds(m as int) {
                assert forall|i: int| 0 <= i < n implies !(#[trigger] holds(i)) by {}
            }
        }
    }
}

/// Each property that some column family has answered is one gauge, in the order of
/// the properties: under the name of the property, with a sample for each family that
/// has answered. A property that none has answered is left out.
pub proof fn law_properties_are_shown_by_family(families: Seq<String>, values: Seq<Vec<Option<u64>>>, n: nat)
    ensures
        collectors::family_gauges(families, values, n) == places(
            n,
            |p: int| exists|f: int| 0 <= f < families.len() && (#[trigger] values[p]@[f]) is Some,
        ).map_values(
            |p: int|
                GaugeView {
                    name: "hotblocks_rocksdb_"@ + collectors::cf_property_table()[p].0,
                    help: "RocksDB "@ + collectors::cf_property_table()[p].1 + " property"@,
                    samples: collectors::family_samples(families, values[p]@, families.len()),
                },
        ),
    decreases n,
{
    let shown = |p: int| exists|f: int| 0 <= f < families.len() && (#[trigger] values[p]@[f]) is Some;
    let gauge = |p: int|
        GaugeView {
            name: "hotblocks_rocksdb_"@ + collectors::cf_property_table()[p].0,
            help: "RocksDB "@ + collectors::cf_property_table()[p].1 + " property"@,
            samples: collectors::family_samples(families, values[p]@, families.len()),
        };
    if n == 0 {
        lemma_next_place(0, shown);
        assert(places(0, shown).map_values(gauge) =~= Seq::empty());
    } else {
        let m = (n - 1) as nat;
        law_properties_are_shown_by_family(families, values, m);
        lemma_next_place(m, shown);
        let answered = |i: int| values[m as int]@[i] is Some;
        law_answers_are_shown_by_family(families, values[m as int]@, families.len());
        lemma_no_places(families.len(), answered);
        assert(shown(m as int) <==> places(families.len(), answered).len() > 0) by {
            if shown(m as int) {
                let f = choose|f: int| 0 <= f < families.len() && (#[trigger] values[m as int]@[f]) is Some;
                assert(answered(f));
            }
            if places(families.len(), answered).len() > 0 {
                let f = choose|f: int| 0 <= f < families.len() && #[trigger] answered(f);
                assert(values[m as int]@[f] is Some);
            }
        }
        lemma_plain_name(collectors::cf_property_table()[m as int].0);
        if shown(m as int) {
            assert(places(n, shown).map_values(gauge) =~= places(m, shown).map_values(gauge).push(gauge(m as int)));
        }
    }
}

proof fn lemma_plain_name(stem: Seq<char>)
    ensures
        collectors::rocksdb_name(stem, ""@) == "hotblocks_rocksdb_"@ + stem,
{
    reveal_strlit("");
    assert(collectors::rocksdb_name(stem, ""@) =~= "hotblocks_rocksdb_"@ + stem);
}

/// Each property of the whole database that was answered is one gauge with that one
/// value, in the order of the properties; the others are left out.
pub proof fn law_properties_of_the_database_are_shown(values: Seq<Option<u64>>, n: nat)
    ensures
        collectors::database_gauges(values, n) == places(n, |p: int| values[p] is Some).map_values(
            |p: int|
                GaugeView {
                    name: "hotblocks_rocksdb_"@ + collectors::db_property_table()[p].0,
                    help: "RocksDB "@ + collectors::db_property_table()[p].1 + " property"@,
                    samples: seq![(Seq::empty(), GaugeValueView::Unsigned(values[p].unwrap()))],
                },
        ),
    decreases n,
{
    let answered = |p: int| values[p] is Some;
    let gauge = |p: int|
        GaugeView {
            name: "hotblocks_rocksdb_"@ + collectors::db_property_table()[p].0,
            help: "RocksDB "@ + collectors::db_property_table()[p].1 + " property"@,
            samples: seq![(Seq::empty(), GaugeValueView::Unsigned(values[p].unwrap()))],
        };
    if n == 0 {
        lemma_next_place(0, answered);
        assert(places(0, answered).map_values(gauge) =~= Seq::empty());
    } else {
        let m = (n - 1) as nat;
        law_properties_of_the_database_are_shown(values, m);
        lemma_next_place(m, answered);
        lemma_plain_name(collectors::db_property_table()[m as int].0);
        if answered(m as int) {
            assert(places(n, answered).map_values(gauge) =~= places(m, answered).map_values(gauge).push(
                gauge(m as int),
            ));
        }
    }
}

/// The gauges of a reading are those of the column families, then those of the whole
/// database, then those of the lines of the statistics.
pub proof fn law_a_reading_is_shown_in_order(reading: RocksDbReading)
    ensures
        reading.gauges() == collectors::family_gauges(reading.families@, reading.family_values@, 16)
            + collectors::database_gauges(reading.values@, 2) + (if reading.statistics is Some {
            collectors::statistics_gauges(text::lines_of(reading.statistics.unwrap()@, 0))
        } else {
            Seq::empty()
        }),
{
    assert(collectors::cf_property_table().len() == 16);
    assert(collectors::db_property_table().len() == 2);
}

/// The gauges of lines are those of each line, one line after the other.
pub proof fn law_lines_are_shown_one_after_the_other(lines: Seq<Seq<char>>, more: Seq<Seq<char>>, line: Seq<char>)
    ensures
        collectors::statistics_gauges(lines + more) == collectors::statistics_gauges(lines)
            + collectors::statistics_gauges(more),
        collectors::statistics_gauges(seq![line]) == collectors::line_gauges(line),
        collectors::statistics_gauges(Seq::empty()).len() == 0,
    decreases more.len(),
{
    reveal_with_fuel(collectors::statistics_gauges, 2);
    assert(seq![line].drop_last() =~= Seq::empty());
    assert(collectors::statistics_gauges(seq![line]) =~= collectors::line_gauges(line));
    if more.len() == 0 {
        assert(lines + more =~= lines);
        assert(collectors::statistics_gauges(lines + more) =~= collectors::statistics_gauges(lines)
            + collectors::statistics_gauges(more));
    } else {
        law_lines_are_shown_one_after_the_other(lines, more.drop_last(), line);
        assert((lines + more).drop_last() =~= lines + more.drop_last());
        assert((lines + more).last() == more.last());
        assert(collectors::statistics_gauges(lines + more) =~= collectors::statistics_gauges(lines)
            + collectors::statistics_gauges(more));
    }
}

/// A statistic that is a single number is shown as that number under its own gauge, if
/// it names a count, and not at all otherwise, whatever sum it names.
pub proof fn law_a_ticker_shows_its_count(statistic: StatisticView, i: int)
    requires
        0 <= i < collectors::ticker_table().len(),
        collectors::ticker_table()[i].0 == statistic.name,
        forall|j: int| 0 <= j < i ==> (#[trigger] collectors::ticker_table()[j]).0 != statistic.name,
    ensures
        statistic.count is None ==> collectors::statistic_gauges(statistic).len() == 0,
        statistic.count matches Some(count) ==> collectors::statistic_gauges(statistic) == seq![
            GaugeView {
                name: "hotblocks_rocksdb_"@ + collectors::ticker_table()[i].1,
                help: "Cumulative RocksDB statistics ticker"@,
                samples: seq![(Seq::empty(), GaugeValueView::Unsigned(count))],
            },
        ],
{
    query_laws::law_the_first_pair_is_found(collectors::ticker_table(), statistic.name, i);
    lemma_plain_name(collectors::ticker_table()[i].1);
}

/// A statistic that is a distribution is shown by its count and by its sum, each under
/// a gauge of its own and as far as it is named.
pub proof fn law_a_distribution_shows_count_and_sum(statistic: StatisticView, i: int)
    requires
        0 <= i < collectors::histogram_table().len(),
        collectors::histogram_table()[i].0 == statistic.name,
        forall|j: int| 0 <= j < i ==> (#[trigger] collectors::histogram_table()[j]).0 != statistic.name,
        forall|j: int|
            0 <= j < collectors::ticker_table().len() ==> (#[trigger] collectors::ticker_table()[j]).0 != statistic.name,
    ensures
        ({
            let gauges = collectors::statistic_gauges(statistic);
            let stem = collectors::histogram_table()[i].1;
            let counts = if statistic.count is Some {
                1int
            } else {
                0
            };
            let sums = if statistic.sum is Some {
                1int
            } else {
                0
            };
            &&& gauges.len() == counts + sums
            &&& statistic.count matches Some(count) ==> gauges[0] == (GaugeView {
                name: "hotblocks_rocksdb_"@ + stem + "_count"@,
                help: "Cumulative RocksDB statistics histogram count"@,
                samples: seq![(Seq::empty(), GaugeValueView::Unsigned(count))],
            })
            &&& statistic.sum matches Some(sum) ==> gauges[counts] == (GaugeView {
                name: "hotblocks_rocksdb_"@ + stem + "_sum"@,
                help: "Cumulative RocksDB statistics histogram sum"@,
                samples: seq![(Seq::empty(), GaugeValueView::Decimal(sum))],
            })
        }),
{
    query_laws::law_the_first_pair_is_found(
        collectors::ticker_table(),
        statistic.name,
        collectors::ticker_table().len() as int,
    );
    query_laws::law_the_first_pair_is_found(collectors::histogram_table(), statistic.name, i);
}

/// A statistic that is not selected is not shown.
pub proof fn law_other_statistics_are_not_shown(statistic: StatisticView)
    requires
        forall|j: int|
            0 <= j < collectors::ticker_table().len() ==> (#[trigger] collectors::ticker_table()[j]).0 != statistic.name,
        forall|j: int|
            0 <= j < collectors::histogram_table().len() ==> (#[trigger] collectors::histogram_table()[j]).0
                != statistic.name,
    ensures
        collectors::statistic_gauges(statistic).len() == 0,
{
    query_laws::law_the_first_pair_is_found(
        collectors::ticker_table(),
        statistic.name,
        collectors::ticker_table().len() as int,
    );
    query_laws::law_the_first_pair_is_found(
        collectors::histogram_table(),
        statistic.name,
        collectors::histogram_table().len() as int,
    );
}

/// Whether a word is the key `name`, perhaps with colons at its end.
pub open spec fn is_key(word: Seq<char>, name: Seq<char>) -> bool {
    text::trimmed_end(word, ':') == name
}

/// A line that names no key after its first word says no count and no sum; and what
/// was named before stays.
pub proof fn law_without_keys_nothing_is_named(
    tokens: Seq<Seq<char>>,
    from: nat,
    known: (Option<u64>, Option<Seq<char>>),
)
    requires
        forall|i: int|
            from <= i < tokens.len() ==> !is_key(#[trigger] tokens[i], "COUNT"@) && !is_key(tokens[i], "SUM"@),
    ensures
        collectors::named_values(tokens, from, known) == Some(known),
    decreases tokens.len() - from,
{
    if from < tokens.len() {
        assert(!is_key(tokens[from as int], "COUNT"@));
        law_without_keys_nothing_is_named(tokens, from + 1, known);
    }
}

/// The first key names the value of the word after it, or of the word after that if a
/// colon stands alone between them; commas at the end of the value do not belong to
/// it. A count is taken if it is a number of 64 bits, a sum if it is a floating-point
/// number; otherwise what was named before for that key is given up. The words after
/// the value are then read in the same way. A key without a value spoils the line.
pub proof fn law_a_key_names_the_value_after_it(
    tokens: Seq<Seq<char>>,
    from: nat,
    key: nat,
    at: nat,
    known: (Option<u64>, Option<Seq<char>>),
)
    requires
        from <= key < tokens.len(),
        forall|i: int| from <= i < key ==> !is_key(#[trigger] tokens[i], "COUNT"@) && !is_key(tokens[i], "SUM"@),
        is_key(tokens[key as int], "COUNT"@) || is_key(tokens[key as int], "SUM"@),
        at == key + 2 <==> key + 1 < tokens.len() && tokens[(key + 1) as int] == ":"@,
        at == key + 1 || at == key + 2,
    ensures
        at >= tokens.len() ==> collectors::named_values(tokens, from, known) is None,
        at < tokens.len() && is_key(tokens[key as int], "COUNT"@) ==> collectors::named_values(tokens, from, known)
            == collectors::named_values(
            tokens,
            at + 1,
            (text::unsigned_value(text::trimmed_end(tokens[at as int], ',')), known.1),
        ),
        at < tokens.len() && is_key(tokens[key as int], "SUM"@) ==> collectors::named_values(tokens, from, known)
            == collectors::named_values(
            tokens,
            at + 1,
            (
                known.0,
                if text::is_decimal(text::trimmed_end(tokens[at as int], ',')) {
                    Some(text::trimmed_end(tokens[at as int], ','))
                } else {
                    None
                },
            ),
        ),
    decreases key - from,
{
    assert("COUNT"@ != "SUM"@) by {
        reveal_strlit("COUNT");
        reveal_strlit("SUM");
        assert("COUNT"@.len() != "SUM"@.len());
    }
    if from < key {
        assert(!is_key(tokens[from as int], "COUNT"@));
        law_a_key_names_the_value_after_it(tokens, from + 1, key, at, known);
    }
}

/// A line is a statistic exactly if the words after its first name a count or a sum;
/// its name is the first word.
pub proof fn law_what_a_line_says(line: Seq<char>)
    ensures
        ({
            let tokens = text::words(line, 0);
            let named = collectors::named_values(tokens, 1, (None, None));
            &&& collectors::statistic_of(line) is Some <==> tokens.len() > 0 && named is Some && (
            named.unwrap().0 is Some || named.unwrap().1 is Some)
            &&& collectors::statistic_of(line) matches Some(statistic) ==> statistic.name == tokens[0]
                && statistic.count == named.unwrap().0 && statistic.sum == named.unwrap().1
            &&& collectors::line_gauges(line) == if collectors::statistic_of(line) is Some {
                collectors::statistic_gauges(collectors::statistic_of(line).unwrap())
            } else {
                Seq::empty()
            }
        }),
{
}

/// A dataset with blocks is shown by four gauges, each labelled with its name: the
/// first height of its first chunk, the last height of its last chunk, the time of
/// that one in milliseconds, and the height of its finalized head; zero where a time
/// or a head is not known.
pub proof fn law_a_dataset_is_shown_by_four_gauges(
    dataset: Seq<char>,
    label: DatasetLabelView,
    first: ChunkView,
    last: ChunkView,
)
    ensures
        ({
            let gauges = collectors::dataset_gauges(dataset, label, first, last);
            let shows = |i: int, name: Seq<char>, help: Seq<char>, value: GaugeValueView|
                gauges[i] == (GaugeView { name, help, samples: seq![(seq![("dataset"@, dataset)], value)] });
            &&& gauges.len() == 4
            &&& shows(0, "hotblocks_first_block"@, "First block"@, GaugeValueView::Unsigned(first.first_block))
            &&& shows(1, "hotblocks_last_block"@, "Last block"@, GaugeValueView::Unsigned(last.last_block))
            &&& last.last_block_time matches Some(time) ==> shows(
                2,
                "hotblocks_last_block_timestamp_ms"@,
                "Timestamp of the last block"@,
                GaugeValueView::Signed(time),
            )
            &&& last.last_block_time is None ==> shows(
                2,
                "hotblocks_last_block_timestamp_ms"@,
                "Timestamp of the last block"@,
                GaugeValueView::Signed(0),
            )
            &&& label.finalized_head matches Some(head) ==> shows(
                3,
                "hotblocks_last_finalized_block"@,
                "Last finalized block"@,
                GaugeValueView::Unsigned(head.number),
            )
            &&& label.finalized_head is None ==> shows(
                3,
                "hotblocks_last_finalized_block"@,
                "Last finalized block"@,
                GaugeValueView::Unsigned(0),
            )
        }),
{
}

/// A dataset is shown if it has a label and both its first and its last chunk; it is
/// at odds with itself if it has a label and a first chunk but no last one; and in
/// every other case nothing is shown of it.
pub proof fn law_when_a_dataset_is_shown(reading: DatasetReading, dataset: Seq<char>)
    ensures
        reading.gauges(dataset) == Err::<Seq<GaugeView>, LastChunkMissing>(LastChunkMissing {  })
            <==> reading.label is Some && reading.first_chunk is Some && reading.last_chunk is None,
        reading.label is Some && reading.first_chunk is Some && reading.last_chunk is Some ==> reading.gauges(dataset)
            is Ok && reading.gauges(dataset)->Ok_0 == collectors::dataset_gauges(
            dataset,
            reading.label.unwrap()@,
            reading.first_chunk.unwrap()@,
            reading.last_chunk.unwrap()@,
        ),
        reading.label is None || reading.first_chunk is None ==> reading.gauges(dataset) is Ok && reading.gauges(
            dataset,
        )->Ok_0.len() == 0,
{
}

/// Datasets are shown up to the first whose reading failed or is at odds with itself:
/// every one before that, and none from there on.
pub proof fn law_datasets_are_shown_up_to_the_first_failure(
    datasets: Seq<DatasetId>,
    readings: Seq<Option<DatasetReading>>,
    n: nat,
)
    requires
        n <= readings.len(),
        forall|i: int|
            0 <= i < n ==> (#[trigger] readings[i]) is Some && readings[i].unwrap().gauges(datasets[i]@) is Ok,
        n < readings.len() ==> readings[n as int] is None || readings[n as int].unwrap().gauges(
            datasets[n as int]@,
        ) is Err,
    ensures
        collectors::shown(datasets, readings, 0) == n,
        collectors::datasets_gauges(datasets, readings, n) == Seq::new(
            n,
            |i: int| readings[i].unwrap().gauges(datasets[i]@)->Ok_0,
        ).flatten_alt(),
{
    lemma_shown(datasets, readings, 0, n);
    lemma_datasets_flat(datasets, readings, n);
}

proof fn lemma_shown(datasets: Seq<DatasetId>, readings: Seq<Option<DatasetReading>>, from: nat, n: nat)
    requires
        from <= n <= readings.len(),
        forall|i: int|
            from <= i < n ==> (#[trigger] readings[i]) is Some && readings[i].unwrap().gauges(datasets[i]@) is Ok,
        n < readings.len() ==> readings[n as int] is None || readings[n as int].unwrap().gauges(
            datasets[n as int]@,
        ) is Err,
    ensures
        collectors::shown(datasets, readings, from) == n,
    decreases n - from,
{
    if from < n {
        assert(readings[from as int] is Some);
        lemma_shown(datasets, readings, from + 1, n);
    }
}

proof fn lemma_datasets_flat(datasets: Seq<DatasetId>, readings: Seq<Option<DatasetReading>>, n: nat)
    ensures
        collectors::datasets_gauges(datasets, readings, n) == Seq::new(
            n,
            |i: int| readings[i].unwrap().gauges(datasets[i]@)->Ok_0,
        ).flatten_alt(),
    decreases n,
{
    let each = Seq::new(n, |i: int| readings[i].unwrap().gauges(datasets[i]@)->Ok_0);
    if n > 0 {
        let m = (n - 1) as nat;
        lemma_datasets_flat(datasets, readings, m);
        assert(each.drop_last() =~= Seq::new(m, |i: int| readings[i].unwrap().gauges(datasets[i]@)->Ok_0));
    }
}

/// What lists of gauges, samples and labels say, one by one.
pub proof fn law_gauges_are_told_one_by_one(
    gauges: Seq<Gauge>,
    samples: Seq<(Labels, GaugeValue)>,
    labels: Seq<(&'static str, String)>,
    i: int,
)
    ensures
        collectors::gauge_views(gauges).len() == gauges.len(),
        0 <= i < gauges.len() ==> collectors::gauge_views(gauges)[i] == (GaugeView {
            name: gauges[i].name@,
            help: gauges[i].help@,
            samples: collectors::sample_views(gauges[i].samples@),
        }),
        collectors::sample_views(samples).len() == samples.len(),
        0 <= i < samples.len() ==> collectors::sample_views(samples)[i].0 == prom::label_key(samples[i].0@)
            && collectors::sample_views(samples)[i].1 == match samples[i].1 {
            GaugeValue::Unsigned(n) => GaugeValueView::Unsigned(n),
            GaugeValue::Signed(n) => GaugeValueView::Signed(n),
            GaugeValue::Decimal(t) => GaugeValueView::Decimal(t@),
        },
        prom::label_key(labels).len() == labels.len(),
        0 <= i < labels.len() ==> prom::label_key(labels)[i] == (labels[i].0@, labels[i].1@),
{
}

/// The text with every `from` written as `to`.
pub open spec fn rewritten(text: Seq<char>, from: char, to: char) -> Seq<char> {
    text.map_values(
        |c: char|
            if c == from {
                to
            } else {
                c
            },
    )
}

/// Each gauge of the column families is named after the property it shows, with
/// underscores for hyphens.
pub proof fn law_family_gauges_are_named_after_their_properties(i: int)
    requires
        0 <= i < collectors::cf_property_table().len(),
    ensures
        collectors::cf_property_table().len() == 16,
        collectors::cf_property_table()[i].1 == "rocksdb."@ + rewritten(collectors::cf_property_table()[i].0, '_', '-'),
{
    let table = collectors::cf_property_table();
    assert(table[0].1 == "rocksdb."@ + rewritten(table[0].0, '_', '-')) by {
        reveal_strlit("num_running_compactions");
        reveal_strlit("rocksdb.num-running-compactions");
        reveal_strlit("rocksdb.");
    }
    assert(table[1].1 == "rocksdb."@ + rewritten(table[1].0, '_', '-')) by {
        reveal_strlit("num_running_flushes");
        reveal_strlit("rocksdb.num-running-flushes");
        reveal_strlit("rocksdb.");
    }
    assert(table[2].1 == "rocksdb."@ + rewritten(table[2].0, '_', '-')) by {
        reveal_strlit("compaction_pending");
        reveal_strlit("rocksdb.compaction-pending");
        reveal_strlit("rocksdb.");
    }
    assert(table[3].1 == "rocksdb."@ + rewritten(table[3].0, '_', '-')) by {
        reveal_strlit("estimate_pending_compaction_bytes");
        reveal_strlit("rocksdb.estimate-pending-compaction-bytes");
        reveal_strlit("rocksdb.");
    }
    assert(table[4].1 == "rocksdb."@ + rewritten(table[4].0, '_', '-')) by {
        reveal_strlit("mem_table_flush_pending");
        reveal_strlit("rocksdb.mem-table-flush-pending");
        reveal_strlit("rocksdb.");
    }
    assert(table[5].1 == "rocksdb."@ + rewritten(table[5].0, '_', '-')) by {
        reveal_strlit("cur_size_all_mem_tables");
        reveal_strlit("rocksdb.cur-size-all-mem-tables");
        reveal_strlit("rocksdb.");
    }
    assert(table[6].1 == "rocksdb."@ + rewritten(table[6].0, '_', '-')) by {
        reveal_strlit("size_all_mem_tables");
        reveal_strlit("rocksdb.size-all-mem-tables");
        reveal_strlit("rocksdb.");
    }
    assert(table[7].1 == "rocksdb."@ + rewritten(table[7].0, '_', '-')) by {
        reveal_strlit("num_live_versions");
        reveal_strlit("rocksdb.num-live-versions");
        reveal_strlit("rocksdb.");
    }
    assert(table[8].1 == "rocksdb."@ + rewritten(table[8].0, '_', '-')) by {
        reveal_strlit("live_sst_files_size");
        reveal_strlit("rocksdb.live-sst-files-size");
        reveal_strlit("rocksdb.");
    }
    assert(table[9].1 == "rocksdb."@ + rewritten(table[9].0, '_', '-')) by {
        reveal_strlit("total_sst_files_size");
        reveal_strlit("rocksdb.total-sst-files-size");
        reveal_strlit("rocksdb.");
    }
    assert(table[10].1 == "rocksdb."@ + rewritten(table[10].0, '_', '-')) by {
        reveal_strlit("estimate_num_keys");
        reveal_strlit("rocksdb.estimate-num-keys");
        reveal_strlit("rocksdb.");
    }
    assert(table[11].1 == "rocksdb."@ + rewritten(table[11].0, '_', '-')) by {
        reveal_strlit("estimate_table_readers_mem");
        reveal_strlit("rocksdb.estimate-table-readers-mem");
        reveal_strlit("rocksdb.");
    }
    assert(table[12].1 == "rocksdb."@ + rewritten(table[12].0, '_', '-')) by {
        reveal_strlit("block_cache_usage");
        reveal_strlit("rocksdb.block-cache-usage");
        reveal_strlit("rocksdb.");
    }
    assert(table[13].1 == "rocksdb."@ + rewritten(table[13].0, '_', '-')) by {
        reveal_strlit("block_cache_pinned_usage");
        reveal_strlit("rocksdb.block-cache-pinned-usage");
        reveal_strlit("rocksdb.");
    }
    assert(table[14].1 == "rocksdb."@ + rewritten(table[14].0, '_', '-')) by {
        reveal_strlit("num_immutable_mem_table");
        reveal_strlit("rocksdb.num-immutable-mem-table");
        reveal_strlit("rocksdb.");
    }
    assert(table[15].1 == "rocksdb."@ + rewritten(table[15].0, '_', '-')) by {
        reveal_strlit("estimate_live_data_size");
        reveal_strlit("rocksdb.estimate-live-data-size");
        reveal_strlit("rocksdb.");
    }
}

/// Each gauge of the whole database is named after the property it shows, with
/// underscores for hyphens.
pub proof fn law_database_gauges_are_named_after_their_properties(i: int)
    requires
        0 <= i < collectors::db_property_table().len(),
    ensures
        collectors::db_property_table().len() == 2,
        collectors::db_property_table()[i].1 == "rocksdb."@ + rewritten(collectors::db_property_table()[i].0, '_', '-'),
{
    let table = collectors::db_property_table();
    assert(table[0].1 == "rocksdb."@ + rewritten(table[0].0, '_', '-')) by {
        reveal_strlit("actual_delayed_write_rate");
        reveal_strlit("rocksdb.actual-delayed-write-rate");
        reveal_strlit("rocksdb.");
    }
    assert(table[1].1 == "rocksdb."@ + rewritten(table[1].0, '_', '-')) by {
        reveal_strlit("is_write_stopped");
        reveal_strlit("rocksdb.is-write-stopped");
        reveal_strlit("rocksdb.");
    }
}

/// Each gauge of a single number is named after the statistic it shows, with
/// underscores for points, as a total.
pub proof fn law_tickers_are_named_after_their_statistics(i: int)
    requires
        0 <= i < collectors::ticker_table().len(),
    ensures
        collectors::ticker_table().len() == 9,
        "rocksdb_"@ + collectors::ticker_table()[i].1 == rewritten(collectors::ticker_table()[i].0, '.', '_') + "_total"@,
{
    let table = collectors::ticker_table();
    assert("rocksdb_"@ + table[0].1 == rewritten(table[0].0, '.', '_') + "_total"@) by {
        reveal_strlit("rocksdb.block.cache.hit");
        reveal_strlit("block_cache_hit_total");
        reveal_strlit("rocksdb_");
        reveal_strlit("_total");
    }
    assert("rocksdb_"@ + table[1].1 == rewritten(table[1].0, '.', '_') + "_total"@) by {
        reveal_strlit("rocksdb.block.cache.miss");
        reveal_strlit("block_cache_miss_total");
        reveal_strlit("rocksdb_");
        reveal_strlit("_total");
    }
    assert("rocksdb_"@ + table[2].1 == rewritten(table[2].0, '.', '_') + "_total"@) by {
        reveal_strlit("rocksdb.block.cache.data.hit");
        reveal_strlit("block_cache_data_hit_total");
        reveal_strlit("rocksdb_");
        reveal_strlit("_total");
    }
    assert("rocksdb_"@ + table[3].1 == rewritten(table[3].0, '.', '_') + "_total"@) by {
        reveal_strlit("rocksdb.block.cache.data.miss");
        reveal_strlit("block_cache_data_miss_total");
        reveal_strlit("rocksdb_");
        reveal_strlit("_total");
    }
    assert("rocksdb_"@ + table[4].1 == rewritten(table[4].0, '.', '_') + "_total"@) by {
        reveal_strlit("rocksdb.stall.micros");
        reveal_strlit("stall_micros_total");
        reveal_strlit("rocksdb_");
        reveal_strlit("_total");
    }
    assert("rocksdb_"@ + table[5].1 == rewritten(table[5].0, '.', '_') + "_total"@) by {
        reveal_strlit("rocksdb.bytes.read");
        reveal_strlit("bytes_read_total");
        reveal_strlit("rocksdb_");
        reveal_strlit("_total");
    }
    assert("rocksdb_"@ + table[6].1 == rewritten(table[6].0, '.', '_') + "_total"@) by {
        reveal_strlit("rocksdb.bytes.written");
        reveal_strlit("bytes_written_total");
        reveal_strlit("rocksdb_");
        reveal_strlit("_total");
    }
    assert("rocksdb_"@ + table[7].1 == rewritten(table[7].0, '.', '_') + "_total"@) by {
        reveal_strlit("rocksdb.compact.read.bytes");
        reveal_strlit("compact_read_bytes_total");
        reveal_strlit("rocksdb_");
        reveal_strlit("_total");
    }
    assert("rocksdb_"@ + table[8].1 == rewritten(table[8].0, '.', '_') + "_total"@) by {
        reveal_strlit("rocksdb.compact.write.bytes");
        reveal_strlit("compact_write_bytes_total");
        reveal_strlit("rocksdb_");
        reveal_strlit("_total");
    }
}

/// The stem of the gauges of a distribution is named after the statistic they show,
/// with underscores for points.
pub proof fn law_distributions_are_named_after_their_statistics(i: int)
    requires
        0 <= i < collectors::histogram_table().len(),
    ensures
        collectors::histogram_table().len() == 2,
        "rocksdb_"@ + collectors::histogram_table()[i].1 == rewritten(collectors::histogram_table()[i].0, '.', '_'),
{
    let table = collectors::histogram_table();
    assert("rocksdb_"@ + table[0].1 == rewritten(table[0].0, '.', '_')) by {
        reveal_strlit("rocksdb.db.write.stall");
        reveal_strlit("db_write_stall");
        reveal_strlit("rocksdb_");
    }
    assert("rocksdb_"@ + table[1].1 == rewritten(table[1].0, '.', '_')) by {
        reveal_strlit("rocksdb.compaction.times.micros");
        reveal_strlit("compaction_times_micros");
        reveal_strlit("rocksdb_");
    }
}
/// The properties and statistics that are shown, in their order.
pub proof fn law_what_of_the_database_is_shown()
    ensures
        collectors::cf_property_table().map_values(|p: (Seq<char>, Seq<char>)| p.0) == seq![
            "num_running_compactions"@,
            "num_running_flushes"@,
            "compaction_pending"@,
            "estimate_pending_compaction_bytes"@,
            "mem_table_flush_pending"@,
            "cur_size_all_mem_tables"@,
            "size_all_mem_tables"@,
            "num_live_versions"@,
            "live_sst_files_size"@,
            "total_sst_files_size"@,
            "estimate_num_keys"@,
            "estimate_table_readers_mem"@,
            "block_cache_usage"@,
            "block_cache_pinned_usage"@,
            "num_immutable_mem_table"@,
            "estimate_live_data_size"@,
        ],
        collectors::db_property_table().map_values(|p: (Seq<char>, Seq<char>)| p.0) == seq![
            "actual_delayed_write_rate"@,
            "is_write_stopped"@,
        ],
        collectors::ticker_table().map_values(|p: (Seq<char>, Seq<char>)| p.0) == seq![
            "rocksdb.block.cache.hit"@,
            "rocksdb.block.cache.miss"@,
            "rocksdb.block.cache.data.hit"@,
            "rocksdb.block.cache.data.miss"@,
            "rocksdb.stall.micros"@,
            "rocksdb.bytes.read"@,
            "rocksdb.bytes.written"@,
            "rocksdb.compact.read.bytes"@,
            "rocksdb.compact.write.bytes"@,
        ],
        collectors::histogram_table().map_values(|p: (Seq<char>, Seq<char>)| p.0) == seq![
            "rocksdb.db.write.stall"@,
            "rocksdb.compaction.times.micros"@,
        ],
        collectors::column_families() == seq!["DATASETS"@, "CHUNKS"@, "TABLES"@, "DIRTY_TABLES"@, "DELETED_TABLES"@],
{
}

/// What a parsed statistic says is what it holds; and a reading is complete exactly if
/// each property of the column families has an answer or none for each family, and
/// each of the whole database has one.
pub proof fn law_readings_of_the_database(parsed: ParsedStatistic, reading: RocksDbReading)
    ensures
        parsed@.name == parsed.name@,
        parsed@.count == parsed.count,
        parsed@.sum is Some <==> parsed.sum is Some,
        parsed.sum matches Some(sum) ==> parsed@.sum == Some(sum@),
        reading.complete() <==> reading.family_values@.len() == 16 && reading.values@.len() == 2 && forall|p: int|
            0 <= p < reading.family_values@.len() ==> (#[trigger] reading.family_values@[p])@.len()
                == reading.families@.len(),
{
    assert(collectors::cf_property_table().len() == 16);
    assert(collectors::db_property_table().len() == 2);
}

/// A table of texts is told pair by pair.
pub proof fn law_pairs_are_told_one_by_one(table: Seq<(&'static str, &'static str)>, i: int)
    requires
        0 <= i < table.len(),
    ensures
        collectors::pairs(table).len() == table.len(),
        collectors::pairs(table)[i].0 == table[i].0@,
        collectors::pairs(table)[i].1 == table[i].1@,
{
}

} // verus!
