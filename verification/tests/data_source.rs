use std::collections::VecDeque;

use hotblocks::data_source::metrics::{record_ingest_source_error, IngestFamily, IngestMetrics};
use hotblocks::data_source::standard::{
    backoff_ms, DataEvent, Endpoint, EndpointAsk, EndpointState, PollAsk, Polled, SourceBlock, StandardDataSource,
};
use hotblocks::duration::Duration;
use hotblocks::types::BlockRef;
use prometheus_client::encoding::text::encode;
use prometheus_client::registry::Registry;

#[derive(Clone)]
struct TestBlock {
    number: u64,
    hash: String,
    parent_hash: String,
}

impl TestBlock {
    fn new(number: u64, hash: &str, parent_hash: &str) -> Self {
        TestBlock { number, hash: hash.to_string(), parent_hash: parent_hash.to_string() }
    }
}

fn block_ref(number: u64, hash: &str) -> BlockRef {
    BlockRef { number, hash: hash.to_string() }
}

/// What an endpoint answers to a request.
enum Answer {
    Blocks(Option<BlockRef>, Vec<TestBlock>),
    Fork(Vec<BlockRef>),
    Fail(&'static str),
    Silence,
}

/// A client that replays canned answers, the last one again and again.
struct ReplayClient {
    answers: VecDeque<Answer>,
    stream: VecDeque<TestBlock>,
    rested: bool,
}

impl ReplayClient {
    fn new(batches: Vec<Vec<TestBlock>>) -> Self {
        Self::answering(batches.into_iter().map(|b| Answer::Blocks(None, b)).collect())
    }

    fn answering(answers: Vec<Answer>) -> Self {
        ReplayClient { answers: answers.into(), stream: VecDeque::new(), rested: false }
    }

    fn request(&mut self) -> Polled<()> {
        let answer = if self.answers.len() > 1 {
            self.answers.pop_front().unwrap()
        } else {
            match self.answers.front() {
                Some(Answer::Blocks(head, blocks)) => Answer::Blocks(head.clone(), blocks.clone()),
                Some(Answer::Fork(prev)) => Answer::Fork(prev.clone()),
                Some(Answer::Fail(kind)) => Answer::Fail(kind),
                Some(Answer::Silence) | None => Answer::Silence,
            }
        };
        match answer {
            Answer::Blocks(head, blocks) => {
                self.stream = blocks.into();
                Polled::Streaming { finalized_head: head }
            }
            Answer::Fork(prev_blocks) => Polled::Forked { prev_blocks, now: Duration::from_millis(5) },
            Answer::Fail(kind) => Polled::Failed { kind: kind.to_string() },
            Answer::Silence => Polled::Pending,
        }
    }

    fn ask(&mut self, ask: EndpointAsk) -> Polled<()> {
        match ask {
            EndpointAsk::Request(_) => self.request(),
            EndpointAsk::PollRequest => Polled::Pending,
            EndpointAsk::PollBlocks => match self.stream.pop_front() {
                Some(b) => Polled::Block(SourceBlock {
                    number: b.number,
                    hash: b.hash,
                    parent_hash: b.parent_hash,
                    payload: (),
                }),
                None => Polled::Ended,
            },
            EndpointAsk::PollBackoff { .. } => {
                if self.rested {
                    self.rested = false;
                    Polled::Rested
                } else {
                    Polled::Pending
                }
            }
        }
    }
}

/// Polls until the stream has an event, or nothing for now.
fn poll_at(
    ds: &mut StandardDataSource,
    clients: &mut Vec<ReplayClient>,
    counts: &mut IngestMetrics,
    now_ms: u64,
    timed_out: bool,
) -> Option<DataEvent<()>> {
    let now = Duration::from_millis(now_ms);
    let mut ask: PollAsk<()> = ds.poll_next_event();
    loop {
        ask = match ask {
            PollAsk::Endpoint { index, ask } => {
                let polled = clients[index].ask(ask);
                ds.resume(polled, counts)
            }
            PollAsk::Decide => ds.decide(now, counts),
            PollAsk::PollTimeout => ds.timed_out(timed_out, now, counts),
            PollAsk::Ready(event) => return Some(event),
            PollAsk::Pending => return None,
        }
    }
}

fn poll(
    ds: &mut StandardDataSource,
    clients: &mut Vec<ReplayClient>,
    counts: &mut IngestMetrics,
) -> Option<DataEvent<()>> {
    poll_at(ds, clients, counts, 0, false)
}

fn build(source: &str, batches: Vec<Vec<TestBlock>>) -> (StandardDataSource, Vec<ReplayClient>) {
    (StandardDataSource::new(vec![source.to_string()]), vec![ReplayClient::new(batches)])
}

fn is_backoff(ds: &StandardDataSource, index: usize) -> bool {
    matches!(ds.endpoint(index).state, EndpointState::Backoff { .. })
}

fn is_ready(ds: &StandardDataSource, index: usize) -> bool {
    matches!(ds.endpoint(index).state, EndpointState::Ready)
}

#[test]
fn backoff_ladder_is_shared_and_clamped_to_ten_seconds() {
    assert_eq!(backoff_ms(0), 0, "the first fault must keep the original zero-latency retry");
    assert_eq!(backoff_ms(1), 100);
    assert_eq!(backoff_ms(2), 200);
    assert_eq!(backoff_ms(7), 10_000);
    assert_eq!(backoff_ms(8), 10_000);
    assert_eq!(backoff_ms(1_000_000), 10_000);
}

#[test]
fn the_whole_backoff_ladder() {
    let rungs: Vec<u64> = (0..8).map(backoff_ms).collect();
    assert_eq!(rungs, vec![0, 100, 200, 500, 1000, 2000, 5000, 10000]);
}

#[test]
fn persistent_linkage_mismatch_backs_off_instead_of_spinning() {
    let source = "test-persistent-reject";
    let mut counts = IngestMetrics::new();
    let non_linking = TestBlock::new(10, "0xB10", "0xWRONG_PARENT");
    let (mut ds, mut clients) = build(source, vec![vec![non_linking]]);
    ds.set_position(10, Some("0xEXPECTED_PARENT"));

    let event = poll(&mut ds, &mut clients, &mut counts);

    assert!(event.is_none(), "the endpoint must park in backoff, not emit a block");
    assert_eq!(ds.endpoint(0).reject_counter, 2, "free retry then an escalating strike");
    assert!(is_backoff(&ds, 0), "a persistent reject must install a backoff sleep");
    assert_eq!(
        counts.linkage_rejects(source, "parent_hash_mismatch"),
        2,
        "every rejection is recorded, backoff or not"
    );
}

#[test]
fn a_committed_block_resets_the_reject_strike() {
    let source = "test-reject-reset";
    let mut counts = IngestMetrics::new();
    let non_linking = TestBlock::new(10, "0xB10bad", "0xWRONG_PARENT");
    let linking = TestBlock::new(10, "0xB10good", "0xEXPECTED_PARENT");
    let (mut ds, mut clients) = build(source, vec![vec![non_linking], vec![linking]]);
    ds.set_position(10, Some("0xEXPECTED_PARENT"));

    match poll(&mut ds, &mut clients, &mut counts) {
        Some(DataEvent::Block { block, .. }) => assert_eq!(block.number, 10),
        other => panic!("expected the linking block to commit, got {:?}", other),
    }
    assert_eq!(ds.endpoint(0).reject_counter, 0, "a committed block resets the strike");
    assert_eq!(
        counts.linkage_rejects(source, "parent_hash_mismatch"),
        1,
        "exactly one rejection preceded the accepted block"
    );
}

#[test]
fn a_reposition_clears_the_reject_strike() {
    let source = "test-reposition-clears";
    let mut counts = IngestMetrics::new();
    let non_linking = TestBlock::new(10, "0xB10", "0xWRONG_PARENT");
    let (mut ds, mut clients) = build(source, vec![vec![non_linking]]);
    ds.set_position(10, Some("0xEXPECTED_PARENT"));

    let _ = poll(&mut ds, &mut clients, &mut counts);
    assert!(ds.endpoint(0).reject_counter > 0, "precondition: a strike accrued at the old position");
    assert!(is_backoff(&ds, 0), "precondition: parked in backoff");

    ds.set_position(20, Some("0xNEW_PARENT"));

    assert_eq!(ds.endpoint(0).reject_counter, 0, "a reposition clears the old-position strike");
    assert!(is_ready(&ds, 0), "a reposition also cancels the backoff");
    assert_eq!(ds.get_next_block(), 20);
    assert_eq!(ds.get_parent_block_hash().map(|h| h.as_str()), Some("0xNEW_PARENT"));
}

#[test]
fn a_committed_block_clears_the_other_endpoints_stale_strike() {
    let mut counts = IngestMetrics::new();
    let mut ds = StandardDataSource::new(vec!["xep-broken".to_string(), "xep-healthy".to_string()]);
    let mut clients = vec![
        ReplayClient::new(vec![vec![TestBlock::new(10, "0xBAD", "0xWRONG_PARENT")]]),
        ReplayClient::new(vec![vec![TestBlock::new(10, "0xGOOD", "0xEXPECTED_PARENT")]]),
    ];
    ds.set_position(10, Some("0xEXPECTED_PARENT"));

    match poll(&mut ds, &mut clients, &mut counts) {
        Some(DataEvent::Block { block, .. }) => assert_eq!(block.number, 10),
        other => panic!("expected the healthy endpoint to commit block 10, pending={}", other.is_none()),
    }

    assert_eq!(ds.get_next_block(), 11, "the committed block advanced the shared position");
    assert_eq!(
        ds.endpoint(0).reject_counter,
        0,
        "the commit cleared the broken endpoint's stale old-position strike"
    );
    assert!(is_ready(&ds, 0), "and cancelled its parked backoff so it can rejoin at the new position at once");
    assert!(
        matches!(ds.endpoint(1).state, EndpointState::Stream { .. }),
        "the committing endpoint is skipped by the reset and keeps its live stream"
    );
}

#[test]
fn the_reject_and_error_ladders_are_independent() {
    let mut counts = IngestMetrics::new();
    let mut ep = Endpoint::new("test-ladders".to_string());

    ep.on_reject("parent_hash_mismatch", &mut counts);
    ep.on_reject("parent_hash_mismatch", &mut counts);
    assert_eq!(ep.reject_counter, 2, "two rejects climb the reject ladder");

    ep.on_error("transport blip", &mut counts);
    assert_eq!(ep.reject_counter, 2, "a transport error must not clear the linkage-reject strike");
    assert_eq!(ep.error_counter, 1, "on_error advances only its own ladder");

    ep.on_reject("parent_hash_mismatch", &mut counts);
    assert_eq!(ep.error_counter, 1, "a linkage reject must not clear the error strike");
    assert_eq!(ep.reject_counter, 3);
    assert_eq!(counts.source_errors("test-ladders", "transport blip"), 1);
    assert_eq!(counts.linkage_rejects("test-ladders", "parent_hash_mismatch"), 3);
}

#[test]
fn a_resolved_backoff_lets_the_next_reject_escalate() {
    let source = "test-escalate";
    let mut counts = IngestMetrics::new();
    let (mut ds, mut clients) = build(source, vec![vec![TestBlock::new(10, "0xB10", "0xWRONG_PARENT")]]);
    ds.set_position(10, Some("0xEXPECTED_PARENT"));

    assert!(poll(&mut ds, &mut clients, &mut counts).is_none());
    assert_eq!(ds.endpoint(0).reject_counter, 2, "free retry then the first backoff rung");
    assert!(matches!(ds.endpoint(0).state, EndpointState::Backoff { pause_ms: 100 }));

    clients[0].rested = true;
    assert!(poll(&mut ds, &mut clients, &mut counts).is_none());
    assert_eq!(
        ds.endpoint(0).reject_counter,
        3,
        "the resolved backoff let the next reject install the next rung"
    );
    assert!(matches!(ds.endpoint(0).state, EndpointState::Backoff { pause_ms: 200 }));
}

#[test]
fn a_block_without_a_known_parent_is_accepted() {
    let mut counts = IngestMetrics::new();
    let (mut ds, mut clients) = build("fresh", vec![vec![TestBlock::new(0, "0x0", "whatever")]]);
    assert!(matches!(
        poll(&mut ds, &mut clients, &mut counts),
        Some(DataEvent::Block { is_final: true, .. })
    ));
    assert_eq!(ds.get_next_block(), 1);
    assert_eq!(ds.get_parent_block_hash().map(|h| h.as_str()), Some("0x0"));
}

#[test]
fn blocks_below_the_position_are_skipped() {
    let mut counts = IngestMetrics::new();
    let (mut ds, mut clients) = build(
        "overlap",
        vec![vec![TestBlock::new(9, "0x9", "0x8"), TestBlock::new(10, "0xa", "0x9")]],
    );
    ds.set_position(10, Some("0x9"));
    match poll(&mut ds, &mut clients, &mut counts) {
        Some(DataEvent::Block { block, is_final }) => {
            assert_eq!(block.number, 10);
            assert!(!is_final);
        }
        other => panic!("{:?}", other),
    }
    assert_eq!(counts.linkage_rejects("overlap", "parent_hash_mismatch"), 0);
}

#[test]
fn the_end_of_the_stream_may_be_the_head() {
    let mut counts = IngestMetrics::new();
    let (mut ds, mut clients) = build("head", vec![vec![TestBlock::new(10, "0xa", "0x9")], vec![]]);
    ds.set_position(10, Some("0x9"));
    assert!(matches!(poll(&mut ds, &mut clients, &mut counts), Some(DataEvent::Block { .. })));
    assert!(matches!(poll(&mut ds, &mut clients, &mut counts), Some(DataEvent::MaybeOnHead)));
}

#[test]
fn finality_is_reported_once_and_clipped_to_the_position() {
    let mut counts = IngestMetrics::new();
    let mut ds = StandardDataSource::new(vec!["final".to_string()]);
    let mut clients = vec![ReplayClient::answering(vec![
        Answer::Blocks(Some(block_ref(5, "0x5")), vec![TestBlock::new(10, "0xa", "0x9")]),
        Answer::Blocks(Some(block_ref(100, "0x100")), vec![]),
        Answer::Blocks(Some(block_ref(9, "0x9")), vec![]),
        Answer::Silence,
    ])];
    ds.set_position(10, Some("0x9"));
    match poll(&mut ds, &mut clients, &mut counts) {
        Some(DataEvent::FinalizedHead(head)) => assert_eq!(head, block_ref(5, "0x5")),
        other => panic!("{:?}", other),
    }
    assert!(matches!(
        poll(&mut ds, &mut clients, &mut counts),
        Some(DataEvent::Block { is_final: false, .. })
    ));
    // The stream ends below a head seen by nobody yet.
    assert!(matches!(poll(&mut ds, &mut clients, &mut counts), Some(DataEvent::MaybeOnHead)));
    // The new head lies beyond the position, which a block of this stream has reached.
    match poll(&mut ds, &mut clients, &mut counts) {
        Some(DataEvent::FinalizedHead(head)) => assert_eq!(head, block_ref(100, "0x100")),
        other => panic!("{:?}", other),
    }
    // A head behind what is known is no news, and the end of the stream is no head
    // while finality lies ahead.
    assert!(poll(&mut ds, &mut clients, &mut counts).is_none());
}

#[test]
fn a_head_beyond_an_uncertain_position_is_not_reported() {
    let mut counts = IngestMetrics::new();
    let mut ds = StandardDataSource::new(vec!["uncertain".to_string()]);
    let mut clients = vec![ReplayClient::answering(vec![
        Answer::Blocks(Some(block_ref(100, "0x100")), vec![]),
        Answer::Silence,
    ])];
    ds.set_position(10, Some("0x9"));
    assert!(poll(&mut ds, &mut clients, &mut counts).is_none());
}

#[test]
fn a_majority_settles_a_fork_with_the_longest_list() {
    let mut counts = IngestMetrics::new();
    let mut ds = StandardDataSource::new(vec!["a".to_string(), "b".to_string(), "c".to_string()]);
    let mut clients = vec![
        ReplayClient::answering(vec![Answer::Fork(vec![block_ref(9, "0x9x")]), Answer::Silence]),
        ReplayClient::answering(vec![Answer::Silence]),
        ReplayClient::answering(vec![
            Answer::Fork(vec![block_ref(6, "0x6x"), block_ref(7, "0x7x")]),
            Answer::Silence,
        ]),
    ];
    ds.set_position(10, Some("0x9"));
    match poll_at(&mut ds, &mut clients, &mut counts, 12, false) {
        Some(DataEvent::Fork(chain)) => {
            assert_eq!(chain, vec![block_ref(6, "0x6x"), block_ref(7, "0x7x")])
        }
        other => panic!("{:?}", other),
    }
    assert_eq!(counts.fork_signals("a", "at_tip"), 1);
    assert_eq!(counts.fork_signals("c", "above_tip"), 1);
    let times = counts.take_fork_consensus();
    assert_eq!(times.len(), 1);
    assert_eq!(times[0].0, vec![("decision", "majority".to_string())]);
    assert_eq!(times[0].1, Duration::from_millis(7));
    assert!(counts.take_fork_consensus().is_empty());
    // Nothing is settled twice.
    assert!(is_ready(&ds, 0) && is_ready(&ds, 1) && is_ready(&ds, 2));
    assert!(poll(&mut ds, &mut clients, &mut counts).is_none());
}

#[test]
fn a_minority_waits_for_the_time_limit() {
    let mut counts = IngestMetrics::new();
    let mut ds = StandardDataSource::new(vec!["a".to_string(), "b".to_string(), "c".to_string()]);
    let mut clients = vec![
        ReplayClient::answering(vec![Answer::Fork(vec![block_ref(9, "0x9x")]), Answer::Silence]),
        ReplayClient::answering(vec![Answer::Silence]),
        ReplayClient::answering(vec![Answer::Silence]),
    ];
    ds.set_position(10, Some("0x9"));
    assert!(poll_at(&mut ds, &mut clients, &mut counts, 10, false).is_none());
    assert!(ds.has_fork_hints());
    assert!(poll_at(&mut ds, &mut clients, &mut counts, 20, false).is_none());
    assert!(matches!(
        poll_at(&mut ds, &mut clients, &mut counts, 2005, true),
        Some(DataEvent::Fork(_))
    ));
    let times = counts.take_fork_consensus();
    assert_eq!(times[0].0, vec![("decision", "timeout".to_string())]);
    assert_eq!(times[0].1, Duration::from_millis(2000));
}

#[test]
fn all_active_endpoints_settle_a_fork() {
    let mut counts = IngestMetrics::new();
    let mut ds = StandardDataSource::new(vec!["a".to_string(), "b".to_string()]);
    let mut clients = vec![
        ReplayClient::answering(vec![Answer::Fork(vec![block_ref(9, "0x9x")]), Answer::Silence]),
        ReplayClient::answering(vec![Answer::Fail("timeout")]),
    ];
    ds.set_position(10, Some("0x9"));
    assert!(matches!(
        poll_at(&mut ds, &mut clients, &mut counts, 5, false),
        Some(DataEvent::Fork(_))
    ));
    assert_eq!(counts.take_fork_consensus()[0].0, vec![("decision", "all_active".to_string())]);
    assert_eq!(counts.source_errors("b", "timeout"), 2);
}

#[test]
fn a_stale_fork_signal_is_asked_again() {
    let mut counts = IngestMetrics::new();
    let mut ds = StandardDataSource::new(vec!["a".to_string(), "b".to_string()]);
    let mut clients = vec![
        ReplayClient::answering(vec![Answer::Fork(vec![block_ref(9, "0x9x")]), Answer::Silence]),
        ReplayClient::answering(vec![
            Answer::Blocks(None, vec![TestBlock::new(10, "0xa", "0x9")]),
            Answer::Silence,
        ]),
    ];
    ds.set_position(10, Some("0x9"));
    assert!(matches!(poll(&mut ds, &mut clients, &mut counts), Some(DataEvent::Block { .. })));
    assert!(matches!(ds.endpoint(0).state, EndpointState::Fork { .. }));
    // The position has moved on, so the signal counts no more; the other stream ends.
    assert!(matches!(poll(&mut ds, &mut clients, &mut counts), Some(DataEvent::MaybeOnHead)));
    assert!(matches!(ds.endpoint(0).state, EndpointState::Req { .. }));
}

#[test]
fn empty_fork_hints_settle_nothing() {
    let mut counts = IngestMetrics::new();
    let mut ds = StandardDataSource::new(vec!["a".to_string()]);
    ds.set_position(10, Some("0x9"));
    assert!(!ds.has_fork_hints());
    let ask: PollAsk<()> = ds.poll_next_event();
    assert!(matches!(ask, PollAsk::Endpoint { index: 0, ask: EndpointAsk::Request(_) }));
    let ask: PollAsk<()> = ds.resume(
        Polled::Forked { prev_blocks: vec![], now: Duration::zero() },
        &mut counts,
    );
    assert!(matches!(ask, PollAsk::Decide));
    assert!(!ds.has_fork_hints());
    assert_eq!(counts.fork_signals("a", "at_tip"), 1);
}

#[test]
fn ingest_counters_reach_the_registry() {
    let mut counts = IngestMetrics::new();
    let mut registry = Registry::default();
    counts.register(IngestFamily::SourceErrors, &mut registry, "ingest_source_errors", "Upstream errors");
    record_ingest_source_error(&mut counts, "http://a", "http_500");
    record_ingest_source_error(&mut counts, "http://a", "http_500");
    record_ingest_source_error(&mut counts, "http://b", "decode");
    assert_eq!(counts.source_errors("http://a", "http_500"), 2);
    assert_eq!(counts.source_errors("http://b", "decode"), 1);
    assert_eq!(counts.source_errors("http://b", "http_500"), 0);
    let mut out = String::new();
    encode(&mut out, &registry).unwrap();
    assert!(out.contains("# HELP ingest_source_errors Upstream errors."), "{out}");
    assert!(
        out.contains("ingest_source_errors_total{source=\"http://a\",kind=\"http_500\"} 2"),
        "{out}"
    );
}
