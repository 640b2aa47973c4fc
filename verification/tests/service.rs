use hotblocks::data_source::metrics::{record_ingest_source_error, IngestMetrics};
use hotblocks::duration::Duration;
use hotblocks::prom::{DistributionFamily, Labels};
use hotblocks::service::collectors::{
    collect_dataset_metrics, encode_rocksdb_statistics, parse_rocksdb_statistic, rocksdb_cf_properties,
    rocksdb_db_properties, DatasetMetricsCollector, DatasetReading, Gauge, GaugeValue, LastChunkMissing,
    ParsedStatistic, RocksDbCollector, RocksDbReading,
};
use hotblocks::service::data_service::{
    recovery_report, startup_disk_recovery, table_sst_bytes, unconfigured_datasets, DataService, RecoveryReport,
    RecoveryStep, RetentionConfig, RetentionStrategy,
};
use hotblocks::service::metrics::{
    build_metrics_registry, duration_millis, is_below_floor, is_late_response, is_measurable_stream,
    registered_metrics, report_http_response,
    report_query_too_many_data_waiters_error, report_query_too_many_tasks_error, report_stream_slow_response,
    response_dataset, Distributions, Metric, ServiceMetrics, SlowResponseConfig,
};
use hotblocks::service::query::{
    DatasetHead, QueryError, QueryHead, QueryService, QueryServiceBuilder, QueryStep, WaitSlots,
};
use hotblocks::types::{BlockRef, Chunk, DatasetId, DatasetKind, DatasetLabel};
use prometheus_client::encoding::text::encode;
use prometheus_client::metrics::family::Family;
use prometheus_client::metrics::histogram::Histogram;
use prometheus_client::registry::Registry;

fn ds(name: &str) -> DatasetId {
    DatasetId::from_str(name)
}

#[test]
fn partition_isolates_one_dataset_failure_from_the_healthy_ones() {
    let outcomes = vec![
        (ds("alpha"), Ok(1u32)),
        (ds("bravo"), Err("controller init blew up")),
        (ds("charlie"), Ok(3u32)),
    ];

    let (ready, failed) = DataService::partition_boot_outcomes(outcomes);

    assert_eq!(ready, vec![(ds("alpha"), 1u32), (ds("charlie"), 3u32)]);
    assert_eq!(failed, vec![ds("bravo")]);
    DataService::<u32>::enforce_all_fail_floor(3, ready.len()).expect("a partial failure must still boot");
}

#[test]
fn all_fail_trips_the_floor() {
    let outcomes: Vec<(DatasetId, Result<u32, &str>)> =
        vec![(ds("alpha"), Err("boom")), (ds("bravo"), Err("boom"))];

    let (ready, failed) = DataService::partition_boot_outcomes(outcomes);
    assert!(ready.is_empty());
    assert_eq!(failed, vec![ds("alpha"), ds("bravo")]);

    let err = DataService::<u32>::enforce_all_fail_floor(2, ready.len())
        .expect_err("an all-fail boot must refuse to start");
    assert!(err.message().contains("refusing to start"), "{}", err.message());
    assert_eq!(err.message(), "all 2 configured dataset(s) failed to initialize; refusing to start");
}

#[test]
fn one_survivor_clears_the_floor() {
    let outcomes = vec![(ds("alpha"), Err("boom")), (ds("bravo"), Ok(7u32))];

    let (ready, failed) = DataService::partition_boot_outcomes(outcomes);
    assert_eq!(ready, vec![(ds("bravo"), 7u32)]);
    assert_eq!(failed, vec![ds("alpha")]);
    DataService::<u32>::enforce_all_fail_floor(2, ready.len()).expect("one survivor must clear the floor");
}

#[test]
fn empty_configuration_still_boots() {
    let (ready, failed) = DataService::<u32>::partition_boot_outcomes::<()>(vec![]);
    assert!(ready.is_empty());
    assert!(failed.is_empty());
    DataService::<u32>::enforce_all_fail_floor(0, ready.len()).expect("empty config must boot");
}

#[test]
fn a_service_knows_the_datasets_that_started() {
    let (reports, service) = DataService::start(
        2,
        vec![(ds("broken"), Err("kind mismatch")), (ds("healthy"), Ok("controller"))],
    );
    assert_eq!(reports, vec![(ds("healthy"), true), (ds("broken"), false)]);
    let service = service.ok().unwrap();
    assert_eq!(service.get_dataset(&ds("healthy")).ok(), Some(&"controller"));
    assert_eq!(service.get_dataset(&ds("broken")).unwrap_err().dataset_id, ds("broken"));

    let (reports, service) = DataService::<u32>::start(1, vec![(ds("broken"), Err("kind mismatch"))]);
    assert_eq!(reports, vec![(ds("broken"), false)], "a total failure is reported before it refuses to start");
    assert_eq!(service.err().unwrap().configured_datasets, 1);
}

#[test]
fn retention_is_taken_from_the_configuration() {
    let from = RetentionConfig::FromBlock { number: 5, parent_hash: Some("0x4".to_string()) };
    assert_eq!(
        from.strategy(),
        (RetentionStrategy::FromBlock { number: 5, parent_hash: Some("0x4".to_string()) }, None)
    );
    assert_eq!(RetentionConfig::Head(100).strategy(), (RetentionStrategy::Head(100), None));
    assert_eq!(
        RetentionConfig::Api { max_blocks: Some(7) }.strategy(),
        (RetentionStrategy::Unset, Some(7))
    );
    assert_eq!(RetentionConfig::Unset.strategy(), (RetentionStrategy::Unset, None));
}

#[test]
fn recovery_deletes_what_is_not_configured() {
    let unconfigured =
        unconfigured_datasets(&vec![ds("a"), ds("b"), ds("c")], &vec![ds("b"), ds("d")]);
    assert_eq!(unconfigured, vec![ds("a"), ds("c")]);

    let steps = startup_disk_recovery(&unconfigured, false);
    assert_eq!(steps, vec![RecoveryStep::DeleteDataset(ds("a")), RecoveryStep::DeleteDataset(ds("c"))]);

    let steps = startup_disk_recovery(&unconfigured, true);
    assert_eq!(
        steps,
        vec![
            RecoveryStep::ReclaimDiskSpace,
            RecoveryStep::PurgeOrphanTables,
            RecoveryStep::DeleteDataset(ds("a")),
            RecoveryStep::DeleteDataset(ds("c")),
            RecoveryStep::ReclaimDiskSpace
        ]
    );
    let outcomes = vec![None, Some(4), Some(0), None, Some(0)];
    assert_eq!(
        recovery_report(&steps, &outcomes, Some(100), Some(30)),
        RecoveryReport { orphans_purged: 4, unconfigured_deleted: 1, freed_bytes: Some(70) }
    );
    assert_eq!(recovery_report(&steps, &outcomes, Some(30), Some(100)).freed_bytes, Some(0));
    assert_eq!(recovery_report(&steps, &outcomes, None, Some(100)).freed_bytes, None);
}

#[test]
fn sizes_are_numbers() {
    assert_eq!(table_sst_bytes(Some("12345")), Some(12345));
    assert_eq!(table_sst_bytes(Some("+7")), Some(7));
    assert_eq!(table_sst_bytes(Some("18446744073709551615")), Some(u64::MAX));
    assert_eq!(table_sst_bytes(Some("18446744073709551616")), None);
    assert_eq!(table_sst_bytes(Some("")), None);
    assert_eq!(table_sst_bytes(Some("+")), None);
    assert_eq!(table_sst_bytes(Some("-1")), None);
    assert_eq!(table_sst_bytes(Some(" 1")), None);
    assert_eq!(table_sst_bytes(None), None);
}

#[test]
fn parses_ticker_statistic() {
    assert_eq!(
        parse_rocksdb_statistic("rocksdb.block.cache.hit COUNT : 12345"),
        Some(ParsedStatistic {
            name: "rocksdb.block.cache.hit".to_string(),
            count: Some(12_345),
            sum: None
        })
    );
}

#[test]
fn parses_histogram_statistic() {
    let parsed = parse_rocksdb_statistic(
        "rocksdb.db.write.stall P50 : 1.0 P95 : 2.0 P99 : 3.0 COUNT : 7 SUM : 42.5",
    );
    assert_eq!(
        parsed,
        Some(ParsedStatistic {
            name: "rocksdb.db.write.stall".to_string(),
            count: Some(7),
            sum: Some("42.5".to_string())
        })
    );
    assert_eq!(parsed.unwrap().sum.unwrap().parse::<f64>(), Ok(42.5));
}

#[test]
fn odd_statistics_are_read_or_left() {
    let read = |line: &str| parse_rocksdb_statistic(line).map(|s| (s.count, s.sum));
    assert_eq!(read(""), None);
    assert_eq!(read("   "), None);
    assert_eq!(read("name"), None);
    assert_eq!(read("name COUNT"), None);
    assert_eq!(read("name COUNT :"), None);
    assert_eq!(read("name COUNT: 5, SUM: 1e3,"), Some((Some(5), Some("1e3".to_string()))));
    assert_eq!(read("name COUNT 5"), Some((Some(5), None)));
    assert_eq!(read("name COUNT : x SUM : 2"), Some((None, Some("2".to_string()))));
    assert_eq!(read("name COUNT : 5 COUNT : x"), None);
    assert_eq!(read("\u{a0}name\u{2003}SUM\t:\r1"), Some((None, Some("1".to_string()))));
}

#[test]
fn sums_are_taken_where_they_are_floating_point_numbers() {
    for text in [
        "0", "1.", ".5", "1.5", "-1.5", "+1e10", "1E-3", "1.e5", ".5e+2", "inf", "-Infinity", "NaN", "+nan",
        "00012", "", ".", "e5", "1e", "1e+", "1.5.2", "0x10", "1_000", "in", "+-1", "infinit", "1 ", "1f", "--1",
        "1e5.0", "+", "-",
    ] {
        let line = format!("name SUM : {}", text);
        let taken = parse_rocksdb_statistic(&line).and_then(|s| s.sum).is_some();
        let words: Vec<&str> = line.split_whitespace().collect();
        let token = words.get(3).copied().unwrap_or("");
        assert_eq!(taken, token.parse::<f64>().is_ok(), "{:?}", text);
    }
}

fn shown(gauges: &[Gauge]) -> Vec<String> {
    let mut lines = Vec::new();
    for gauge in gauges {
        for (labels, value) in &gauge.samples {
            let labels: Vec<String> = labels.iter().map(|(k, v)| format!("{}={}", k, v)).collect();
            let value = match value {
                GaugeValue::Unsigned(n) => format!("{}", n),
                GaugeValue::Signed(n) => format!("{}", n),
                GaugeValue::Decimal(t) => t.clone(),
            };
            lines.push(format!("{}{{{}}} {} # {}", gauge.name, labels.join(","), value, gauge.help));
        }
    }
    lines
}

#[test]
fn selected_statistics_become_gauges() {
    let mut gauges = Vec::new();
    encode_rocksdb_statistics(
        &mut gauges,
        "rocksdb.block.cache.hit COUNT : 3\r\nrocksdb.unknown COUNT : 4\n\nrocksdb.bytes.read SUM : 5\n\
         rocksdb.compaction.times.micros P50 : 0 COUNT : 2 SUM : 9.5",
    );
    assert_eq!(
        shown(&gauges),
        vec![
            "hotblocks_rocksdb_block_cache_hit_total{} 3 # Cumulative RocksDB statistics ticker",
            "hotblocks_rocksdb_compaction_times_micros_count{} 2 # Cumulative RocksDB statistics histogram count",
            "hotblocks_rocksdb_compaction_times_micros_sum{} 9.5 # Cumulative RocksDB statistics histogram sum",
        ]
    );
}

#[test]
fn unanswered_properties_are_left_out() {
    let families = vec!["CHUNKS".to_string(), "TABLES".to_string()];
    let mut family_values: Vec<Vec<Option<u64>>> =
        rocksdb_cf_properties().iter().map(|_| vec![None, None]).collect();
    family_values[0] = vec![None, Some(2)];
    let mut values: Vec<Option<u64>> = rocksdb_db_properties().iter().map(|_| None).collect();
    values[1] = Some(1);
    let reading = RocksDbReading {
        families,
        family_values,
        values,
        statistics: Some("rocksdb.stall.micros COUNT : 8".to_string()),
    };
    let collector = RocksDbCollector { db: () };
    assert_eq!(
        shown(&collector.encode(&reading)),
        vec![
            "hotblocks_rocksdb_num_running_compactions{cf=TABLES} 2 # RocksDB rocksdb.num-running-compactions property",
            "hotblocks_rocksdb_is_write_stopped{} 1 # RocksDB rocksdb.is-write-stopped property",
            "hotblocks_rocksdb_stall_micros_total{} 8 # Cumulative RocksDB statistics ticker",
        ]
    );
    assert_eq!(rocksdb_cf_properties().len(), 16);
}

fn dataset_reading(last: bool) -> DatasetReading {
    let chunk = |first: u64, last: u64, time: Option<i64>| {
        Chunk::new(first, last, "0xh".to_string(), "0xp".to_string(), time)
    };
    DatasetReading {
        label: Some(DatasetLabel {
            kind: DatasetKind::from_str("evm"),
            finalized_head: Some(BlockRef { number: 6, hash: "0x6".to_string() }),
        }),
        first_chunk: Some(chunk(3, 4, None)),
        last_chunk: if last { Some(chunk(5, 8, Some(-9))) } else { None },
    }
}

#[test]
fn datasets_show_their_bounds() {
    let mut gauges = Vec::new();
    assert_eq!(collect_dataset_metrics(&mut gauges, &ds("eth"), &dataset_reading(true)), Ok(()));
    assert_eq!(
        shown(&gauges),
        vec![
            "hotblocks_first_block{dataset=eth} 3 # First block",
            "hotblocks_last_block{dataset=eth} 8 # Last block",
            "hotblocks_last_block_timestamp_ms{dataset=eth} -9 # Timestamp of the last block",
            "hotblocks_last_finalized_block{dataset=eth} 6 # Last finalized block",
        ]
    );
    let mut gauges = Vec::new();
    assert_eq!(
        collect_dataset_metrics(&mut gauges, &ds("eth"), &dataset_reading(false)),
        Err(LastChunkMissing {})
    );
    let empty = DatasetReading { label: None, first_chunk: None, last_chunk: None };
    assert_eq!(collect_dataset_metrics(&mut gauges, &ds("eth"), &empty), Ok(()));
    assert!(gauges.is_empty());

    let collector = DatasetMetricsCollector { db: (), datasets: vec![ds("a"), ds("b"), ds("c")] };
    let collected = collector.encode(&vec![Some(dataset_reading(true)), None, Some(dataset_reading(true))]);
    assert_eq!(collected.len(), 4, "a failure ends the collection");
}

fn labels(dataset: Option<&str>) -> Labels {
    let mut labels: Labels = vec![("status", "200".to_string())];
    if let Some(dataset) = dataset {
        labels.push(("dataset_name", dataset.to_string()));
    }
    labels
}

#[test]
fn late_first_bytes_are_counted() {
    let mut metrics = ServiceMetrics::new();
    let config = SlowResponseConfig::default();
    let report = |metrics: &mut ServiceMetrics, dataset: Option<&str>, ms: u64, long_poll: bool| {
        report_http_response(metrics, &labels(dataset), Duration::from_millis(ms), long_poll, config)
    };
    report(&mut metrics, Some("eth"), 2000, false);
    assert_eq!(metrics.slow_responses("eth", "ttfb"), 0);
    report(&mut metrics, Some("eth"), 2001, false);
    assert_eq!(metrics.slow_responses("eth", "ttfb"), 1);
    report(&mut metrics, Some("eth"), 9000, true);
    report(&mut metrics, None, 9000, false);
    assert_eq!(metrics.slow_responses("eth", "ttfb"), 1);
    assert_eq!(metrics.http_status(&labels(Some("eth"))), 3);
    assert_eq!(metrics.http_status(&labels(None)), 1);
    let times = metrics.take_http_ttfb();
    assert_eq!(times.len(), 4);
    assert_eq!(
        times[2].0,
        vec![
            ("status", "200".to_string()),
            ("dataset_name", "eth".to_string()),
            ("long_poll", "true".to_string())
        ]
    );
    assert_eq!(times[0].0[2], ("long_poll", "false".to_string()));
    assert_eq!(times[1].1, Duration::from_millis(2001));
    assert_eq!(response_dataset(&labels(Some("eth"))), Some("eth"));
    assert_eq!(response_dataset(&labels(None)), None);
}

#[test]
fn slow_streams_are_counted_if_they_say_anything() {
    let mut metrics = ServiceMetrics::new();
    let second = Duration::from_secs(1);
    let floor = |n: u64| SlowResponseConfig::new(1_000, n);
    report_stream_slow_response(&mut metrics, &ds("eth"), 9_999, second, false, floor(u64::MAX));
    report_stream_slow_response(&mut metrics, &ds("eth"), 10_000, Duration::zero(), false, floor(u64::MAX));
    report_stream_slow_response(&mut metrics, &ds("eth"), 10_000, second, true, floor(u64::MAX));
    report_stream_slow_response(&mut metrics, &ds("eth"), 10_000, second, false, floor(10_000));
    assert_eq!(metrics.slow_responses("eth", "throughput"), 0);
    report_stream_slow_response(&mut metrics, &ds("eth"), 10_000, second, false, floor(10_001));
    assert_eq!(metrics.slow_responses("eth", "throughput"), 1);
    let longer = Duration::new(1, 1);
    assert!(is_below_floor(10_000, longer, floor(10_000)));
    assert!(!is_below_floor(10_000, longer, floor(9_999)));
    assert!(!is_below_floor(0, Duration::zero(), floor(u64::MAX)));
    assert!(!is_below_floor(0, longer, floor(0)));
    assert!(is_below_floor(u64::MAX, Duration::from_secs(u64::MAX), floor(2)));
    assert!(!is_below_floor(u64::MAX, Duration::from_secs(u64::MAX), floor(1)));
    assert!(is_measurable_stream(10_000, second, false));
    let config = SlowResponseConfig::new(1_000, 1);
    assert!(!is_late_response(second, false, config));
    assert!(is_late_response(Duration::from_millis(1_001), false, config));
    assert!(!is_late_response(Duration::from_millis(1_001), true, config));
    assert_eq!(SlowResponseConfig::default().min_bytes_per_second(), 50_000);
    assert_eq!(duration_millis(Duration::from_micros(1_999)), 1);
    assert_eq!(duration_millis(Duration::from_secs(u64::MAX)), u64::MAX);
}

#[test]
fn counts_reach_the_registry() {
    let mut metrics = ServiceMetrics::new();
    let mut top = Registry::default();
    let registry = top.sub_registry_with_prefix("hotblocks");
    let counts: Vec<Metric> =
        registered_metrics().into_iter().filter(|m| metrics.register(*m, registry)).collect();
    assert_eq!(
        counts,
        vec![
            Metric::QueryErrorTooManyTasks,
            Metric::QueryErrorTooManyDataWaiters,
            Metric::HttpStatus,
            Metric::SlowResponses,
            Metric::CompletedQueries
        ]
    );
    report_query_too_many_tasks_error(&mut metrics);
    report_query_too_many_tasks_error(&mut metrics);
    report_query_too_many_data_waiters_error(&mut metrics);
    metrics.report_completed_query();
    report_http_response(
        &mut metrics,
        &labels(Some("eth")),
        Duration::from_secs(3),
        false,
        SlowResponseConfig::new(10, 10),
    );
    let mut out = String::new();
    encode(&mut out, &top).unwrap();
    for line in [
        "hotblocks_query_error_too_many_tasks_total 2",
        "hotblocks_query_error_too_many_data_waiters_total 1",
        "hotblocks_completed_queries_total 1",
        "hotblocks_http_status_total{status=\"200\",dataset_name=\"eth\"} 1",
        "hotblocks_slow_responses_total{dataset=\"eth\",reason=\"ttfb\"} 1",
        "# HELP hotblocks_http_status Number of sent HTTP responses.",
    ] {
        assert!(out.contains(line), "{line} in {out}");
    }
    assert_eq!(metrics.query_error_too_many_tasks(), 2);
    assert_eq!(metrics.query_error_too_many_data_waiters(), 1);
    assert_eq!(metrics.completed_queries(), 1);
}

fn distribution(observed: &str) -> DistributionFamily {
    let family: Family<Labels, Histogram> = Family::new_with_constructor(|| Histogram::new([1.0]));
    family.get_or_create(&vec![("observed", observed.to_string())]).observe(0.5);
    DistributionFamily { family }
}

#[test]
fn the_registry_shows_every_metric_under_its_name() {
    let mut metrics = ServiceMetrics::new();
    let mut ingest = IngestMetrics::new();
    let registry = build_metrics_registry(
        &metrics,
        &ingest,
        &Distributions {
            http_ttfb: distribution("ttfb"),
            stream_bytes: distribution("bytes"),
            stream_blocks: distribution("blocks"),
            stream_chunks: distribution("chunks"),
            stream_bytes_per_second: distribution("bytes_per_second"),
            stream_blocks_per_second: distribution("blocks_per_second"),
            stream_durations: distribution("durations"),
            queried_blocks: distribution("queried_blocks"),
            queried_chunks: distribution("queried_chunks"),
        },
    );
    report_query_too_many_tasks_error(&mut metrics);
    record_ingest_source_error(&mut ingest, "http://a", "http_500");
    let mut out = String::new();
    encode(&mut out, &registry).unwrap();
    for line in [
        "hotblocks_ingest_source_errors_total{source=\"http://a\",kind=\"http_500\"} 1",
        "hotblocks_query_error_too_many_tasks_total 1",
        "hotblocks_query_error_too_many_data_waiters_total 0",
        "hotblocks_http_seconds_to_first_byte_count{observed=\"ttfb\"} 1",
        "hotblocks_stream_bytes_count{observed=\"bytes\"} 1",
        "hotblocks_stream_blocks_count{observed=\"blocks\"} 1",
        "hotblocks_stream_chunks_count{observed=\"chunks\"} 1",
        "hotblocks_stream_bytes_per_second_count{observed=\"bytes_per_second\"} 1",
        "hotblocks_stream_blocks_per_second_count{observed=\"blocks_per_second\"} 1",
        "hotblocks_stream_duration_seconds_count{observed=\"durations\"} 1",
        "hotblocks_queried_blocks_count{observed=\"queried_blocks\"} 1",
        "hotblocks_queried_chunks_count{observed=\"queried_chunks\"} 1",
        "hotblocks_completed_queries_total 0",
    ] {
        assert!(out.contains(line), "{line} in {out}");
    }
    let order: Vec<usize> = registered_metrics()
        .into_iter()
        .filter_map(|m| out.find(&format!("# HELP hotblocks_{} {}.", m.as_str(), m.help_text())))
        .collect();
    assert_eq!(order.len(), 14);
    assert!(order.windows(2).all(|w| w[0] < w[1]));
}

fn dataset(head: Option<(u64, &str)>, finalized: Option<(u64, &str)>) -> DatasetHead {
    let block = |b: Option<(u64, &str)>| b.map(|(number, hash)| BlockRef { number, hash: hash.to_string() });
    DatasetHead {
        kind: DatasetKind::from_str("evm"),
        head: block(head),
        finalized_head: block(finalized),
    }
}

fn query(kind: &str, first_block: u64, parent: Option<&str>) -> QueryHead {
    QueryHead {
        kind: DatasetKind::from_str(kind),
        first_block,
        parent_block_hash: parent.map(|p| p.to_string()),
    }
}

#[test]
fn queries_wait_for_blocks_above_the_head() {
    let eth = dataset(Some((10, "0xa")), Some((5, "0x5")));
    let waits = |q: QueryHead, finalized: bool| QueryService::<()>::is_long_poll(&eth, &q, finalized);
    assert!(matches!(waits(query("evm", 10, Some("0x")), false), Ok(false)));
    assert!(matches!(waits(query("evm", 11, None), false), Ok(true)));
    assert!(matches!(waits(query("evm", 11, Some("0xa")), false), Ok(true)));
    assert!(matches!(waits(query("evm", 12, Some("0x")), false), Ok(true)));
    assert!(matches!(waits(query("evm", 6, None), true), Ok(true)));
    assert!(matches!(waits(query("evm", 5, None), true), Ok(false)));
    match waits(query("evm", 11, Some("0xb")), false) {
        Err(QueryError::UnexpectedBaseBlock { prev_blocks, expected_hash }) => {
            assert_eq!(prev_blocks, vec![BlockRef { number: 10, hash: "0xa".to_string() }]);
            assert_eq!(expected_hash, "0xb");
        }
        other => panic!("{:?}", other),
    }
    match waits(query("solana", 1, None), false) {
        Err(QueryError::KindMismatch { query_kind, dataset_kind }) => {
            assert_eq!(query_kind.as_str(), "solana");
            assert_eq!(dataset_kind.as_str(), "evm");
        }
        other => panic!("{:?}", other),
    }
    let empty = dataset(None, None);
    assert!(matches!(QueryService::<()>::is_long_poll(&empty, &query("evm", 0, None), false), Ok(true)));
}

#[test]
fn waiting_queries_are_bounded() {
    let mut metrics = ServiceMetrics::new();
    let mut builder: QueryServiceBuilder<&str> = QueryService::builder("db", 4);
    builder.set_max_data_waiters(1).set_urgency(9).set_max_pending_query_tasks(70);
    builder.set_slow_response_config(SlowResponseConfig::new(1, 2));
    let mut service = builder.build();
    assert_eq!(service.db(), &"db");
    assert_eq!(service.executor().max_pending_tasks, 70);
    assert_eq!(service.executor().urgency, 9);
    assert_eq!(service.slow_response_config().min_bytes_per_second(), 2);

    let eth = dataset(Some((10, "0xa")), Some((5, "0x5")));
    let ahead = query("evm", 11, None);
    assert!(matches!(
        service.query(&eth, &query("evm", 1, None), &mut metrics),
        (QueryStep::Respond, false)
    ));
    match service.query(&eth, &ahead, &mut metrics) {
        (QueryStep::Wait { first_block, finalized, timeout }, true) => {
            assert_eq!(first_block, 11);
            assert!(!finalized);
            assert_eq!(timeout, Duration::from_secs(5));
        }
        other => panic!("{:?}", other),
    }
    assert!(matches!(
        service.query_finalized(&eth, &ahead, &mut metrics),
        (QueryStep::Refuse(QueryError::Busy), false)
    ));
    assert_eq!(metrics.query_error_too_many_data_waiters(), 1);
    assert!(service.has_waiters());
    assert!(matches!(
        service.finish_wait(false),
        Err(QueryError::AboveTheHead { finalized_head: None })
    ));
    assert!(!service.has_waiters());
    assert!(matches!(
        service.query_finalized(&eth, &ahead, &mut metrics),
        (QueryStep::Wait { finalized: true, .. }, true)
    ));
    assert!(service.finish_wait(true).is_ok());
    assert!(matches!(
        service.query(&eth, &query("solana", 1, None), &mut metrics),
        (QueryStep::Refuse(QueryError::KindMismatch { .. }), false)
    ));
    assert_eq!(service.metrics_collector(3).encode().name, "hotblocks_active_queries");
}

#[test]
fn default_query_settings() {
    let service = QueryServiceBuilder::new((), 8).build();
    assert_eq!(service.executor().max_pending_tasks, 1600);
    assert_eq!(service.executor().urgency, 500);
}

#[test]
fn slots_are_given_back() {
    let mut metrics = ServiceMetrics::new();
    let mut slots = WaitSlots::new(2);
    assert!(slots.get(&mut metrics));
    assert!(slots.get(&mut metrics));
    assert!(!slots.get(&mut metrics));
    assert_eq!(slots.waiters(), 2);
    slots.release();
    assert!(slots.get(&mut metrics));
    assert_eq!(metrics.query_error_too_many_data_waiters(), 1);
}
