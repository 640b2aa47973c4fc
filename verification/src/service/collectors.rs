//! Gauges computed when metrics are scraped.
//!
//! A collector turns what was read of the database into [`Gauge`]s; the caller
//! reads and writes them out.
use crate::prom::{self, one_label, LabelKey, Labels};
use crate::text::{
    self, is_decimal_text, parse_unsigned, same_text, split_lines, split_words, trim_end,
};
use crate::types::{Chunk, ChunkView, DatasetId, DatasetLabel, DatasetLabelView};
use vstd::prelude::*;

verus! {

/// The value of a gauge.
#[derive(Debug)]
pub enum GaugeValue {
    Unsigned(u64),
    Signed(i64),
    /// A floating-point number as it was written.
    Decimal(String),
}

/// What a [`GaugeValue`] says.
pub enum GaugeValueView {
    Unsigned(u64),
    Signed(i64),
    Decimal(Seq<char>),
}

impl View for GaugeValue {
    type V = GaugeValueView;

    open spec fn view(&self) -> GaugeValueView {
        match self {
            GaugeValue::Unsigned(n) => GaugeValueView::Unsigned(*n),
            GaugeValue::Signed(n) => GaugeValueView::Signed(*n),
            GaugeValue::Decimal(t) => GaugeValueView::Decimal(t@),
        }
    }
}

/// A metric with its samples, each under a label set of its own.
#[derive(Debug)]
pub struct Gauge {
    pub name: String,
    pub help: String,
    pub samples: Vec<(Labels, GaugeValue)>,
}

/// What a [`Gauge`] says.
pub struct GaugeView {
    pub name: Seq<char>,
    pub help: Seq<char>,
    pub samples: Seq<(LabelKey, GaugeValueView)>,
}

/// What a list of samples says.
pub open spec fn sample_views(samples: Seq<(Labels, GaugeValue)>) -> Seq<(LabelKey, GaugeValueView)> {
    samples.map_values(|s: (Labels, GaugeValue)| (prom::label_key(s.0@), s.1@))
}

impl View for Gauge {
    type V = GaugeView;

    open spec fn view(&self) -> GaugeView {
        GaugeView { name: self.name@, help: self.help@, samples: sample_views(self.samples@) }
    }
}

/// What a list of gauges says.
pub open spec fn gauge_views(gauges: Seq<Gauge>) -> Seq<GaugeView> {
    gauges.map_values(|g: Gauge| g@)
}

/// A gauge with one sample.
pub open spec fn single(name: Seq<char>, help: Seq<char>, labels: LabelKey, value: GaugeValueView) -> GaugeView {
    GaugeView { name, help, samples: seq![(labels, value)] }
}

/// A gauge with one sample.
fn single_gauge(name: String, help: &str, labels: Labels, value: GaugeValue) -> (gauge: Gauge)
    ensures
        gauge@ == single(name@, help@, prom::label_key(labels@), value@),
{
    let mut samples: Vec<(Labels, GaugeValue)> = Vec::new();
    samples.push((labels, value));
    let gauge: Gauge = Gauge { name, help: help.to_owned(), samples };
    assert(gauge@.samples =~= seq![(prom::label_key(labels@), value@)]);
    gauge
}

/// No label at all.
fn no_labels() -> (labels: Labels)
    ensures
        prom::label_key(labels@) == Seq::<(Seq<char>, Seq<char>)>::empty(),
{
    let labels: Labels = Vec::new();
    assert(prom::label_key(labels@) =~= Seq::empty());
    labels
}

/// `prefix`, `middle` and `suffix` in one.
fn joined(prefix: &str, middle: &str, suffix: &str) -> (text: String)
    ensures
        text@ == prefix@ + middle@ + suffix@,
{
    let mut text: String = prefix.to_owned();
    text.append(middle);
    text.append(suffix);
    text
}

/// Pairs of texts.
pub open spec fn pairs(table: Seq<(&'static str, &'static str)>) -> Seq<(Seq<char>, Seq<char>)> {
    table.map_values(|p: (&'static str, &'static str)| (p.0@, p.1@))
}

/// The column families of the database.
pub open spec fn column_families() -> Seq<Seq<char>> {
    seq!["DATASETS"@, "CHUNKS"@, "TABLES"@, "DIRTY_TABLES"@, "DELETED_TABLES"@]
}

/// The column families of the database.
pub fn rocksdb_column_families() -> (families: Vec<&'static str>)
    ensures
        families@.map_values(|f: &'static str| f@) == column_families(),
{
    let families: Vec<&'static str> = vec!["DATASETS", "CHUNKS", "TABLES", "DIRTY_TABLES", "DELETED_TABLES"];
    assert(families@.map_values(|f: &'static str| f@) =~= column_families());
    families
}

/// The gauges of each column family, with the property that they show.
pub open spec fn cf_property_table() -> Seq<(Seq<char>, Seq<char>)> {
    seq![
        ("num_running_compactions"@, "rocksdb.num-running-compactions"@),
        ("num_running_flushes"@, "rocksdb.num-running-flushes"@),
        ("compaction_pending"@, "rocksdb.compaction-pending"@),
        ("estimate_pending_compaction_bytes"@, "rocksdb.estimate-pending-compaction-bytes"@),
        ("mem_table_flush_pending"@, "rocksdb.mem-table-flush-pending"@),
        ("cur_size_all_mem_tables"@, "rocksdb.cur-size-all-mem-tables"@),
        ("size_all_mem_tables"@, "rocksdb.size-all-mem-tables"@),
        ("num_live_versions"@, "rocksdb.num-live-versions"@),
        ("live_sst_files_size"@, "rocksdb.live-sst-files-size"@),
        ("total_sst_files_size"@, "rocksdb.total-sst-files-size"@),
        ("estimate_num_keys"@, "rocksdb.estimate-num-keys"@),
        ("estimate_table_readers_mem"@, "rocksdb.estimate-table-readers-mem"@),
        ("block_cache_usage"@, "rocksdb.block-cache-usage"@),
        ("block_cache_pinned_usage"@, "rocksdb.block-cache-pinned-usage"@),
        ("num_immutable_mem_table"@, "rocksdb.num-immutable-mem-table"@),
        ("estimate_live_data_size"@, "rocksdb.estimate-live-data-size"@),
    ]
}

/// The gauges of the whole database, with the property that they show.
pub open spec fn db_property_table() -> Seq<(Seq<char>, Seq<char>)> {
    seq![
        ("actual_delayed_write_rate"@, "rocksdb.actual-delayed-write-rate"@),
        ("is_write_stopped"@, "rocksdb.is-write-stopped"@),
    ]
}

/// The statistics that are a single number, with the gauge that shows it.
pub open spec fn ticker_table() -> Seq<(Seq<char>, Seq<char>)> {
    seq![
        ("rocksdb.block.cache.hit"@, "block_cache_hit_total"@),
        ("rocksdb.block.cache.miss"@, "block_cache_miss_total"@),
        ("rocksdb.block.cache.data.hit"@, "block_cache_data_hit_total"@),
        ("rocksdb.block.cache.data.miss"@, "block_cache_data_miss_total"@),
        ("rocksdb.stall.micros"@, "stall_micros_total"@),
        ("rocksdb.bytes.read"@, "bytes_read_total"@),
        ("rocksdb.bytes.written"@, "bytes_written_total"@),
        ("rocksdb.compact.read.bytes"@, "compact_read_bytes_total"@),
        ("rocksdb.compact.write.bytes"@, "compact_write_bytes_total"@),
    ]
}

/// The statistics that are a distribution, with the stem of the gauges that show it.
pub open spec fn histogram_table() -> Seq<(Seq<char>, Seq<char>)> {
    seq![
        ("rocksdb.db.write.stall"@, "db_write_stall"@),
        ("rocksdb.compaction.times.micros"@, "compaction_times_micros"@),
    ]
}

/// The gauges of each column family, with the property that they show.
pub fn rocksdb_cf_properties() -> (table: Vec<(&'static str, &'static str)>)
    ensures
        pairs(table@) == cf_property_table(),
{
    let table: Vec<(&'static str, &'static str)> = vec![
        ("num_running_compactions", "rocksdb.num-running-compactions"),
        ("num_running_flushes", "rocksdb.num-running-flushes"),
        ("compaction_pending", "rocksdb.compaction-pending"),
        ("estimate_pending_compaction_bytes", "rocksdb.estimate-pending-compaction-bytes"),
        ("mem_table_flush_pending", "rocksdb.mem-table-flush-pending"),
        ("cur_size_all_mem_tables", "rocksdb.cur-size-all-mem-tables"),
        ("size_all_mem_tables", "rocksdb.size-all-mem-tables"),
        ("num_live_versions", "rocksdb.num-live-versions"),
        ("live_sst_files_size", "rocksdb.live-sst-files-size"),
        ("total_sst_files_size", "rocksdb.total-sst-files-size"),
        ("estimate_num_keys", "rocksdb.estimate-num-keys"),
        ("estimate_table_readers_mem", "rocksdb.estimate-table-readers-mem"),
        ("block_cache_usage", "rocksdb.block-cache-usage"),
        ("block_cache_pinned_usage", "rocksdb.block-cache-pinned-usage"),
        ("num_immutable_mem_table", "rocksdb.num-immutable-mem-table"),
        ("estimate_live_data_size", "rocksdb.estimate-live-data-size"),
    ];
    assert(pairs(table@) =~= cf_property_table());
    table
}

/// The gauges of the whole database, with the property that they show.
pub fn rocksdb_db_properties() -> (table: Vec<(&'static str, &'static str)>)
    ensures
        pairs(table@) == db_property_table(),
{
    let table: Vec<(&'static str, &'static str)> = vec![
        ("actual_delayed_write_rate", "rocksdb.actual-delayed-write-rate"),
        ("is_write_stopped", "rocksdb.is-write-stopped"),
    ];
    assert(pairs(table@) =~= db_property_table());
    table
}

/// The statistics that are a single number, with the gauge that shows it.
fn rocksdb_tickers() -> (table: Vec<(&'static str, &'static str)>)
    ensures
        pairs(table@) == ticker_table(),
{
    let table: Vec<(&'static str, &'static str)> = vec![
        ("rocksdb.block.cache.hit", "block_cache_hit_total"),
        ("rocksdb.block.cache.miss", "block_cache_miss_total"),
        ("rocksdb.block.cache.data.hit", "block_cache_data_hit_total"),
        ("rocksdb.block.cache.data.miss", "block_cache_data_miss_total"),
        ("rocksdb.stall.micros", "stall_micros_total"),
        ("rocksdb.bytes.read", "bytes_read_total"),
        ("rocksdb.bytes.written", "bytes_written_total"),
        ("rocksdb.compact.read.bytes", "compact_read_bytes_total"),
        ("rocksdb.compact.write.bytes", "compact_write_bytes_total"),
    ];
    assert(pairs(table@) =~= ticker_table());
    table
}

/// The statistics that are a distribution, with the stem of the gauges that show it.
fn rocksdb_histograms() -> (table: Vec<(&'static str, &'static str)>)
    ensures
        pairs(table@) == histogram_table(),
{
    let table: Vec<(&'static str, &'static str)> = vec![
        ("rocksdb.db.write.stall", "db_write_stall"),
        ("rocksdb.compaction.times.micros", "compaction_times_micros"),
    ];
    assert(pairs(table@) =~= histogram_table());
    table
}

/// The text that stands first beside `name`.
pub open spec fn beside(table: Seq<(Seq<char>, Seq<char>)>, name: Seq<char>) -> Option<Seq<char>>
    decreases table.len(),
{
    if table.len() == 0 {
        None
    } else if table[0].0 == name {
        Some(table[0].1)
    } else {
        beside(table.skip(1), name)
    }
}

/// The text that stands first beside `name`.
fn find_beside(table: &Vec<(&'static str, &'static str)>, name: &str) -> (found: Option<&'static str>)
    ensures
        found is Some == beside(pairs(table@), name@) is Some,
        found matches Some(f) ==> beside(pairs(table@), name@) == Some(f@),
{
    let ghost all = pairs(table@);
    let mut i: usize = 0;
    assert(all.skip(0) =~= all);
    while i < table.len()
        invariant
            i <= table.len(),
            all == pairs(table@),
            beside(all.skip(i as int), name@) == beside(all, name@),
        decreases table.len() - i,
    {
        assert(all.skip(i as int)[0] == (table@[i as int].0@, table@[i as int].1@));
        assert(all.skip(i as int).skip(1) =~= all.skip(i + 1));
        if same_text(table[i].0, name) {
            return Some(table[i].1);
        }
        i += 1;
    }
    None
}

/// A line of the statistics that names a count, a sum or both.
#[derive(Debug, PartialEq, Eq)]
pub struct ParsedStatistic {
    pub name: String,
    pub count: Option<u64>,
    /// A floating-point number as it was written.
    pub sum: Option<String>,
}

/// What a [`ParsedStatistic`] says.
pub struct StatisticView {
    pub name: Seq<char>,
    pub count: Option<u64>,
    pub sum: Option<Seq<char>>,
}

impl View for ParsedStatistic {
    type V = StatisticView;

    open spec fn view(&self) -> StatisticView {
        StatisticView { name: self.name@, count: self.count, sum: crate::types::text_view(self.sum) }
    }
}

/// The place of the value that belongs to the key at `key`: a colon of its own may
/// stand between.
pub open spec fn value_place(tokens: Seq<Seq<char>>, key: nat) -> nat {
    if key + 1 < tokens.len() && tokens[(key + 1) as int] == ":"@ {
        key + 2
    } else {
        key + 1
    }
}

/// The count and the sum named by the words from `from` on; `known` are those named
/// before. The last one counts, even if its value is not a number. There is no
/// result where a key has no value.
pub open spec fn named_values(
    tokens: Seq<Seq<char>>,
    from: nat,
    known: (Option<u64>, Option<Seq<char>>),
) -> Option<(Option<u64>, Option<Seq<char>>)>
    decreases tokens.len() - from,
{
    if from >= tokens.len() {
        Some(known)
    } else {
        let key = text::trimmed_end(tokens[from as int], ':');
        let at = value_place(tokens, from);
        let value = text::trimmed_end(tokens[at as int], ',');
        if key != "COUNT"@ && key != "SUM"@ {
            named_values(tokens, from + 1, known)
        } else if at >= tokens.len() {
            None
        } else if key == "COUNT"@ {
            named_values(tokens, at + 1, (text::unsigned_value(value), known.1))
        } else {
            named_values(
                tokens,
                at + 1,
                (
                    known.0,
                    if text::is_decimal(value) {
                        Some(value)
                    } else {
                        None
                    },
                ),
            )
        }
    }
}

/// What a line of the statistics says: a name, then keys with values, of which
/// `COUNT` and `SUM` matter.
pub open spec fn statistic_of(line: Seq<char>) -> Option<StatisticView> {
    let tokens = text::words(line, 0);
    if tokens.len() == 0 {
        None
    } else {
        match named_values(tokens, 1, (None, None)) {
            Some((count, sum)) if count is Some || sum is Some => Some(
                StatisticView { name: tokens[0], count, sum },
            ),
            _ => None,
        }
    }
}

/// What a line of the statistics says.
pub fn parse_rocksdb_statistic(line: &str) -> (parsed: Option<ParsedStatistic>)
    ensures
        parsed is Some == statistic_of(line@) is Some,
        parsed matches Some(p) ==> statistic_of(line@) == Some(p@),
{
    let tokens: Vec<String> = split_words(line);
    let ghost all = text::texts(tokens@);
    if tokens.len() == 0 {
        return None;
    }
    let mut count: Option<u64> = None;
    let mut sum: Option<String> = None;
    let mut index: usize = 1;
    while index < tokens.len()
        invariant
            1 <= index,
            all == text::texts(tokens@),
            all == text::words(line@, 0),
            tokens.len() > 0,
            named_values(all, index as nat, (count, crate::types::text_view(sum))) == named_values(
                all,
                1,
                (None, None),
            ),
        decreases tokens.len() - index,
    {
        let key: &str = trim_end(tokens[index].as_str(), ':');
        let is_count: bool = same_text(key, "COUNT");
        let is_sum: bool = same_text(key, "SUM");
        if !is_count && !is_sum {
            index += 1;
            continue ;
        }
        let ghost place = value_place(all, index as nat);
        index += 1;
        if index < tokens.len() && same_text(tokens[index].as_str(), ":") {
            index += 1;
        }
        assert(index == place);
        if index >= tokens.len() {
            return None;
        }
        let value: &str = trim_end(tokens[index].as_str(), ',');
        if is_count {
            proof {
                lemma_keys_differ();
            }
            count = parse_unsigned(value);
        } else {
            sum = if is_decimal_text(value) {
                Some(value.to_owned())
            } else {
                None
            };
        }
        index += 1;
    }
    if count.is_none() && sum.is_none() {
        return None;
    }
    Some(ParsedStatistic { name: tokens[0].clone(), count, sum })
}

proof fn lemma_keys_differ()
    ensures
        "COUNT"@ != "SUM"@,
{
    reveal_strlit("COUNT");
    reveal_strlit("SUM");
    assert("COUNT"@.len() != "SUM"@.len());
}

/// No label at all.
pub open spec fn unlabeled() -> LabelKey {
    Seq::empty()
}

/// The name of a gauge about the database.
pub open spec fn rocksdb_name(stem: Seq<char>, suffix: Seq<char>) -> Seq<char> {
    "hotblocks_rocksdb_"@ + stem + suffix
}

/// The gauges that show a statistic: those of a distribution are two, as far as they
/// were named. A statistic that is not selected has none.
pub open spec fn statistic_gauges(statistic: StatisticView) -> Seq<GaugeView> {
    match beside(ticker_table(), statistic.name) {
        Some(stem) => match statistic.count {
            Some(count) => seq![
                single(
                    rocksdb_name(stem, ""@),
                    "Cumulative RocksDB statistics ticker"@,
                    unlabeled(),
                    GaugeValueView::Unsigned(count),
                ),
            ],
            None => Seq::empty(),
        },
        None => match beside(histogram_table(), statistic.name) {
            Some(stem) => (match statistic.count {
                Some(count) => seq![
                    single(
                        rocksdb_name(stem, "_count"@),
                        "Cumulative RocksDB statistics histogram count"@,
                        unlabeled(),
                        GaugeValueView::Unsigned(count),
                    ),
                ],
                None => Seq::empty(),
            }) + (match statistic.sum {
                Some(sum) => seq![
                    single(
                        rocksdb_name(stem, "_sum"@),
                        "Cumulative RocksDB statistics histogram sum"@,
                        unlabeled(),
                        GaugeValueView::Decimal(sum),
                    ),
                ],
                None => Seq::empty(),
            }),
            None => Seq::empty(),
        },
    }
}

/// The gauges that show the statistic in a line.
pub open spec fn line_gauges(line: Seq<char>) -> Seq<GaugeView> {
    match statistic_of(line) {
        Some(statistic) => statistic_gauges(statistic),
        None => Seq::empty(),
    }
}

/// The gauges that show the statistics in these lines, in order.
pub open spec fn statistics_gauges(lines: Seq<Seq<char>>) -> Seq<GaugeView>
    decreases lines.len(),
{
    if lines.len() == 0 {
        Seq::empty()
    } else {
        statistics_gauges(lines.drop_last()) + line_gauges(lines.last())
    }
}

/// Appends a gauge.
fn push_gauge(gauges: &mut Vec<Gauge>, gauge: Gauge)
    ensures
        gauge_views(final(gauges)@) == gauge_views(old(gauges)@) + seq![gauge@],
{
    gauges.push(gauge);
    assert(gauge_views(gauges@) =~= gauge_views(old(gauges)@) + seq![gauge@]);
}

/// Appends the gauges that show a statistic.
fn push_statistic(gauges: &mut Vec<Gauge>, statistic: &ParsedStatistic)
    ensures
        gauge_views(final(gauges)@) == gauge_views(old(gauges)@) + statistic_gauges(statistic@),
{
    let ghost before = gauge_views(gauges@);
    let tickers: Vec<(&'static str, &'static str)> = rocksdb_tickers();
    match find_beside(&tickers, statistic.name.as_str()) {
        Some(stem) => {
            match statistic.count {
                Some(count) => {
                    let name: String = joined("hotblocks_rocksdb_", stem, "");
                    push_gauge(
                        gauges,
                        single_gauge(
                            name,
                            "Cumulative RocksDB statistics ticker",
                            no_labels(),
                            GaugeValue::Unsigned(count),
                        ),
                    );
                },
                None => {},
            }
            assert(gauge_views(gauges@) =~= before + statistic_gauges(statistic@));
            return;
        },
        None => {},
    }
    let histograms: Vec<(&'static str, &'static str)> = rocksdb_histograms();
    match find_beside(&histograms, statistic.name.as_str()) {
        Some(stem) => {
            match statistic.count {
                Some(count) => {
                    let name: String = joined("hotblocks_rocksdb_", stem, "_count");
                    push_gauge(
                        gauges,
                        single_gauge(
                            name,
                            "Cumulative RocksDB statistics histogram count",
                            no_labels(),
                            GaugeValue::Unsigned(count),
                        ),
                    );
                },
                None => {},
            }
            match &statistic.sum {
                Some(sum) => {
                    let name: String = joined("hotblocks_rocksdb_", stem, "_sum");
                    push_gauge(
                        gauges,
                        single_gauge(
                            name,
                            "Cumulative RocksDB statistics histogram sum",
                            no_labels(),
                            GaugeValue::Decimal(sum.clone()),
                        ),
                    );
                },
                None => {},
            }
        },
        None => {},
    }
    assert(gauge_views(gauges@) =~= before + statistic_gauges(statistic@));
}

/// Appends the gauges that show the statistic in a line.
fn push_line(gauges: &mut Vec<Gauge>, line: &str)
    ensures
        gauge_views(final(gauges)@) == gauge_views(old(gauges)@) + line_gauges(line@),
{
    match parse_rocksdb_statistic(line) {
        Some(statistic) => {
            push_statistic(gauges, &statistic);
        },
        None => {
            assert(gauge_views(gauges@) + Seq::<GaugeView>::empty() =~= gauge_views(gauges@));
        },
    }
}

/// One more line adds its gauges.
proof fn lemma_next_line(before: Seq<GaugeView>, lines: Seq<Seq<char>>, i: int)
    requires
        0 <= i < lines.len(),
    ensures
        before + statistics_gauges(lines.take(i)) + line_gauges(lines[i]) == before + statistics_gauges(
            lines.take(i + 1),
        ),
{
    assert(lines.take(i + 1).drop_last() =~= lines.take(i));
    assert(lines.take(i + 1).last() == lines[i]);
    assert(before + statistics_gauges(lines.take(i)) + line_gauges(lines[i]) =~= before + (statistics_gauges(
        lines.take(i),
    ) + line_gauges(lines[i])));
}

/// Appends the gauges that show the selected statistics.
///
/// The values are cumulative, and shown as they are.
pub fn encode_rocksdb_statistics(gauges: &mut Vec<Gauge>, statistics: &str)
    ensures
        gauge_views(final(gauges)@) == gauge_views(old(gauges)@) + statistics_gauges(
            text::lines_of(statistics@, 0),
        ),
{
    let lines: Vec<String> = split_lines(statistics);
    let ghost all = text::texts(lines@);
    let ghost before = gauge_views(gauges@);
    let mut i: usize = 0;
    assert(all.take(0) =~= Seq::<Seq<char>>::empty());
    assert(before + statistics_gauges(all.take(0)) =~= before);
    while i < lines.len()
        invariant
            i <= lines.len(),
            all == text::texts(lines@),
            gauge_views(gauges@) == before + statistics_gauges(all.take(i as int)),
        decreases lines.len() - i,
    {
        push_line(gauges, lines[i].as_str());
        proof {
            assert(all[i as int] == lines@[i as int]@);
            lemma_next_line(before, all, i as int);
        }
        i += 1;
    }
    assert(all.take(all.len() as int) =~= all);
}

/// What was read of the database for its gauges. A property that was not answered
/// has no value.
#[derive(Debug)]
pub struct RocksDbReading {
    /// The column families.
    pub families: Vec<String>,
    /// For each property of [`rocksdb_cf_properties`], its value in each family.
    pub family_values: Vec<Vec<Option<u64>>>,
    /// For each property of [`rocksdb_db_properties`], its value.
    pub values: Vec<Option<u64>>,
    /// The statistics, where they are kept.
    pub statistics: Option<String>,
}

/// The samples of the first `n` column families that have a value.
pub open spec fn family_samples(families: Seq<String>, values: Seq<Option<u64>>, n: nat) -> Seq<
    (LabelKey, GaugeValueView),
>
    decreases n,
{
    if n == 0 {
        Seq::empty()
    } else {
        let rest = family_samples(families, values, (n - 1) as nat);
        match values[n - 1] {
            Some(value) => rest.push((seq![("cf"@, families[n - 1]@)], GaugeValueView::Unsigned(value))),
            None => rest,
        }
    }
}

/// The gauges of the first `n` properties of column families; a property that no
/// family has answered has none.
pub open spec fn family_gauges(families: Seq<String>, values: Seq<Vec<Option<u64>>>, n: nat) -> Seq<GaugeView>
    decreases n,
{
    if n == 0 {
        Seq::empty()
    } else {
        let rest = family_gauges(families, values, (n - 1) as nat);
        let (stem, property) = cf_property_table()[n - 1];
        let samples = family_samples(families, values[n - 1]@, families.len());
        if samples.len() == 0 {
            rest
        } else {
            rest.push(
                GaugeView {
                    name: rocksdb_name(stem, ""@),
                    help: "RocksDB "@ + property + " property"@,
                    samples,
                },
            )
        }
    }
}

/// The gauges of the first `n` properties of the whole database that were answered.
pub open spec fn database_gauges(values: Seq<Option<u64>>, n: nat) -> Seq<GaugeView>
    decreases n,
{
    if n == 0 {
        Seq::empty()
    } else {
        let rest = database_gauges(values, (n - 1) as nat);
        let (stem, property) = db_property_table()[n - 1];
        match values[n - 1] {
            Some(value) => rest.push(
                single(
                    rocksdb_name(stem, ""@),
                    "RocksDB "@ + property + " property"@,
                    unlabeled(),
                    GaugeValueView::Unsigned(value),
                ),
            ),
            None => rest,
        }
    }
}

impl RocksDbReading {
    /// Whether every property was asked of every column family.
    pub open spec fn complete(self) -> bool {
        &&& self.family_values@.len() == cf_property_table().len()
        &&& forall|i: int|
            0 <= i < self.family_values@.len() ==> (#[trigger] self.family_values@[i])@.len() == self.families@.len()
        &&& self.values@.len() == db_property_table().len()
    }

    /// The gauges that show the reading.
    pub open spec fn gauges(self) -> Seq<GaugeView> {
        family_gauges(self.families@, self.family_values@, cf_property_table().len()) + database_gauges(
            self.values@,
            db_property_table().len(),
        ) + match self.statistics {
            Some(statistics) => statistics_gauges(text::lines_of(statistics@, 0)),
            None => Seq::empty(),
        }
    }
}

/// Shows the state of the database.
#[derive(Debug)]
pub struct RocksDbCollector<D> {
    pub db: D,
}

impl<D> RocksDbCollector<D> {
    /// The gauges that show what was read. What was not answered is left out.
    pub fn encode(&self, reading: &RocksDbReading) -> (gauges: Vec<Gauge>)
        requires
            reading.complete(),
        ensures
            gauge_views(gauges@) == reading.gauges(),
    {
        let mut gauges: Vec<Gauge> = Vec::new();
        push_family_gauges(&mut gauges, reading);
        push_database_gauges(&mut gauges, reading);
        match &reading.statistics {
            Some(statistics) => {
                encode_rocksdb_statistics(&mut gauges, statistics.as_str());
            },
            None => {},
        }
        assert(gauge_views(gauges@) =~= reading.gauges());
        gauges
    }
}

/// Appends the gauges of the column families.
fn push_family_gauges(gauges: &mut Vec<Gauge>, reading: &RocksDbReading)
    requires
        reading.complete(),
        old(gauges)@.len() == 0,
    ensures
        gauge_views(final(gauges)@) == family_gauges(
            reading.families@,
            reading.family_values@,
            cf_property_table().len(),
        ),
{
    let table: Vec<(&'static str, &'static str)> = rocksdb_cf_properties();
    let mut i: usize = 0;
    assert(gauge_views(gauges@) =~= Seq::empty());
    assert(pairs(table@).len() == table@.len());
    while i < table.len()
        invariant
            i <= table.len(),
            pairs(table@) == cf_property_table(),
            table@.len() == cf_property_table().len(),
            reading.complete(),
            gauge_views(gauges@) == family_gauges(reading.families@, reading.family_values@, i as nat),
        decreases table.len() - i,
    {
        assert(pairs(table@)[i as int] == (table@[i as int].0@, table@[i as int].1@));
        let samples: Vec<(Labels, GaugeValue)> = family_sample_list(&reading.families, &reading.family_values[i]);
        if samples.len() > 0 {
            let name: String = joined("hotblocks_rocksdb_", table[i].0, "");
            let help: String = joined("RocksDB ", table[i].1, " property");
            push_gauge(gauges, Gauge { name, help, samples });
            assert(gauge_views(gauges@) =~= family_gauges(
                reading.families@,
                reading.family_values@,
                (i + 1) as nat,
            ));
        }
        i += 1;
    }
}

/// The samples of the column families that have a value.
fn family_sample_list(families: &Vec<String>, values: &Vec<Option<u64>>) -> (samples: Vec<(Labels, GaugeValue)>)
    requires
        values@.len() == families@.len(),
    ensures
        sample_views(samples@) == family_samples(families@, values@, families@.len()),
        samples@.len() == family_samples(families@, values@, families@.len()).len(),
{
    let mut samples: Vec<(Labels, GaugeValue)> = Vec::new();
    let mut i: usize = 0;
    assert(sample_views(samples@) =~= Seq::empty());
    while i < families.len()
        invariant
            i <= families.len(),
            values@.len() == families@.len(),
            sample_views(samples@) == family_samples(families@, values@, i as nat),
        decreases families.len() - i,
    {
        match values[i] {
            Some(value) => {
                let ghost before = samples@;
                let labels: Labels = one_label("cf", families[i].as_str());
                samples.push((labels, GaugeValue::Unsigned(value)));
                assert(sample_views(samples@) =~= sample_views(before).push(
                    (seq![("cf"@, families@[i as int]@)], GaugeValueView::Unsigned(value)),
                ));
            },
            None => {},
        }
        i += 1;
    }
    assert(sample_views(samples@).len() == samples@.len());
    samples
}

/// Appends the gauges of the whole database.
fn push_database_gauges(gauges: &mut Vec<Gauge>, reading: &RocksDbReading)
    requires
        reading.complete(),
    ensures
        gauge_views(final(gauges)@) == gauge_views(old(gauges)@) + database_gauges(
            reading.values@,
            db_property_table().len(),
        ),
{
    let table: Vec<(&'static str, &'static str)> = rocksdb_db_properties();
    let ghost before = gauge_views(gauges@);
    let mut i: usize = 0;
    assert(before + database_gauges(reading.values@, 0) =~= before);
    assert(pairs(table@).len() == table@.len());
    while i < table.len()
        invariant
            i <= table.len(),
            pairs(table@) == db_property_table(),
            table@.len() == db_property_table().len(),
            reading.complete(),
            gauge_views(gauges@) == before + database_gauges(reading.values@, i as nat),
        decreases table.len() - i,
    {
        assert(pairs(table@)[i as int] == (table@[i as int].0@, table@[i as int].1@));
        match reading.values[i] {
            Some(value) => {
                let name: String = joined("hotblocks_rocksdb_", table[i].0, "");
                let help: String = joined("RocksDB ", table[i].1, " property");
                push_gauge(
                    gauges,
                    single_gauge(name, help.as_str(), no_labels(), GaugeValue::Unsigned(value)),
                );
                assert(gauge_views(gauges@) =~= before + database_gauges(reading.values@, (i + 1) as nat));
            },
            None => {},
        }
        i += 1;
    }
}

/// What was read of a dataset for its gauges.
#[derive(Debug)]
pub struct DatasetReading {
    pub label: Option<DatasetLabel>,
    pub first_chunk: Option<Chunk>,
    pub last_chunk: Option<Chunk>,
}

/// The dataset has a first chunk and no last one.
#[derive(Clone, Copy, Debug, PartialEq, Eq, Structural)]
pub struct LastChunkMissing {}

/// The gauges of a dataset.
pub open spec fn dataset_gauges(
    dataset: Seq<char>,
    label: DatasetLabelView,
    first: ChunkView,
    last: ChunkView,
) -> Seq<GaugeView> {
    let labels = seq![("dataset"@, dataset)];
    seq![
        single("hotblocks_first_block"@, "First block"@, labels, GaugeValueView::Unsigned(first.first_block)),
        single("hotblocks_last_block"@, "Last block"@, labels, GaugeValueView::Unsigned(last.last_block)),
        single(
            "hotblocks_last_block_timestamp_ms"@,
            "Timestamp of the last block"@,
            labels,
            GaugeValueView::Signed(
                match last.last_block_time {
                    Some(time) => time,
                    None => 0,
                },
            ),
        ),
        single(
            "hotblocks_last_finalized_block"@,
            "Last finalized block"@,
            labels,
            GaugeValueView::Unsigned(
                match label.finalized_head {
                    Some(head) => head.number,
                    None => 0,
                },
            ),
        ),
    ]
}

impl DatasetReading {
    /// The gauges that show the reading: none of a dataset that does not exist or is
    /// empty.
    pub open spec fn gauges(self, dataset: Seq<char>) -> Result<Seq<GaugeView>, LastChunkMissing> {
        match (self.label, self.first_chunk, self.last_chunk) {
            (Some(label), Some(first), Some(last)) => Ok(dataset_gauges(dataset, label@, first@, last@)),
            (Some(_), Some(_), None) => Err(LastChunkMissing {  }),
            _ => Ok(Seq::empty()),
        }
    }
}

/// Appends the gauges of a dataset.
pub fn collect_dataset_metrics(gauges: &mut Vec<Gauge>, dataset_id: &DatasetId, reading: &DatasetReading) -> (result:
    Result<(), LastChunkMissing>)
    ensures
        match reading.gauges(dataset_id@) {
            Ok(more) => result is Ok && gauge_views(final(gauges)@) == gauge_views(old(gauges)@) + more,
            Err(e) => result == Err::<(), LastChunkMissing>(e) && *final(gauges) == *old(gauges),
        },
{
    let ghost before = gauge_views(gauges@);
    assert(before + Seq::<GaugeView>::empty() =~= before);
    let label: &DatasetLabel = match &reading.label {
        Some(label) => label,
        None => {
            return Ok(());
        },
    };
    let first_chunk: &Chunk = match &reading.first_chunk {
        Some(chunk) => chunk,
        None => {
            return Ok(());
        },
    };
    let last_chunk: &Chunk = match &reading.last_chunk {
        Some(chunk) => chunk,
        None => {
            return Err(LastChunkMissing {  });
        },
    };
    let name: &str = dataset_id.as_str();
    push_gauge(
        gauges,
        single_gauge(
            "hotblocks_first_block".to_owned(),
            "First block",
            one_label("dataset", name),
            GaugeValue::Unsigned(first_chunk.first_block()),
        ),
    );
    push_gauge(
        gauges,
        single_gauge(
            "hotblocks_last_block".to_owned(),
            "Last block",
            one_label("dataset", name),
            GaugeValue::Unsigned(last_chunk.last_block()),
        ),
    );
    push_gauge(
        gauges,
        single_gauge(
            "hotblocks_last_block_timestamp_ms".to_owned(),
            "Timestamp of the last block",
            one_label("dataset", name),
            GaugeValue::Signed(last_chunk.last_block_time().unwrap_or(0)),
        ),
    );
    let finalized: u64 = match &label.finalized_head {
        Some(head) => head.number,
        None => 0,
    };
    push_gauge(
        gauges,
        single_gauge(
            "hotblocks_last_finalized_block".to_owned(),
            "Last finalized block",
            one_label("dataset", name),
            GaugeValue::Unsigned(finalized),
        ),
    );
    assert(gauge_views(gauges@) =~= before + dataset_gauges(dataset_id@, label@, first_chunk@, last_chunk@));
    Ok(())
}

/// Shows the state of the datasets.
#[derive(Debug)]
pub struct DatasetMetricsCollector<D> {
    pub db: D,
    pub datasets: Vec<DatasetId>,
}

/// How many of the readings show something before the first that does not: one that
/// could not be made, or that contradicts itself. What follows that one would most
/// likely fail as well, and is left out.
pub open spec fn shown(datasets: Seq<DatasetId>, readings: Seq<Option<DatasetReading>>, from: nat) -> nat
    decreases readings.len() - from,
{
    if from < readings.len() && readings[from as int] is Some && readings[from as int].unwrap().gauges(
        datasets[from as int]@,
    ) is Ok {
        shown(datasets, readings, from + 1)
    } else {
        from
    }
}

/// The gauges of the first `n` datasets.
pub open spec fn datasets_gauges(datasets: Seq<DatasetId>, readings: Seq<Option<DatasetReading>>, n: nat) -> Seq<
    GaugeView,
>
    decreases n,
{
    if n == 0 {
        Seq::empty()
    } else {
        datasets_gauges(datasets, readings, (n - 1) as nat) + readings[n - 1].unwrap().gauges(
            datasets[n - 1]@,
        )->Ok_0
    }
}

impl<D> DatasetMetricsCollector<D> {
    /// The gauges that show what was read of the datasets, one reading for each, up
    /// to the first that failed.
    pub fn encode(&self, readings: &Vec<Option<DatasetReading>>) -> (gauges: Vec<Gauge>)
        requires
            readings@.len() <= self.datasets@.len(),
        ensures
            gauge_views(gauges@) == datasets_gauges(
                self.datasets@,
                readings@,
                shown(self.datasets@, readings@, 0),
            ),
    {
        let mut gauges: Vec<Gauge> = Vec::new();
        let mut i: usize = 0;
        assert(gauge_views(gauges@) =~= Seq::empty());
        while i < readings.len()
            invariant
                i <= readings.len(),
                readings@.len() <= self.datasets@.len(),
                shown(self.datasets@, readings@, i as nat) == shown(self.datasets@, readings@, 0),
                gauge_views(gauges@) == datasets_gauges(self.datasets@, readings@, i as nat),
            decreases readings.len() - i,
        {
            match &readings[i] {
                Some(reading) => {
                    match collect_dataset_metrics(&mut gauges, &self.datasets[i], reading) {
                        Ok(_) => {},
                        Err(_) => {
                            return gauges;
                        },
                    }
                },
                None => {
                    return gauges;
                },
            }
            i += 1;
        }
        gauges
    }
}

/// Shows what the query executor is doing.
#[derive(Clone, Copy, Debug)]
pub struct QueryExecutorCollector {
    pub active_queries: u64,
}

impl QueryExecutorCollector {
    /// The gauge that shows it.
    pub fn encode(&self) -> (gauge: Gauge)
        ensures
            gauge@ == single(
                "hotblocks_active_queries"@,
                "Number of currently active queries"@,
                unlabeled(),
                GaugeValueView::Unsigned(self.active_queries),
            ),
    {
        single_gauge(
            "hotblocks_active_queries".to_owned(),
            "Number of currently active queries",
            no_labels(),
            GaugeValue::Unsigned(self.active_queries),
        )
    }
}

} // verus!
