use std::collections::BTreeSet;

use hotblocks::duration::Duration;
use hotblocks::storage::chain::{ForkStep, ParentHash, StoredHead};
use hotblocks::storage::codec::{decode_chunk, decode_label, encode_chunk, encode_label, Corrupt};
use hotblocks::storage::finality::{read_block_hashes, PrefixAsk, PrefixCheck, StoredBlocks};
use hotblocks::storage::index::{encode_block_number, encode_transaction_position, is_indexed_kind};
use hotblocks::storage::mutation::Mutation;
use hotblocks::storage::tx::{HashReading, TransactionRow, Tx, TxError};
use hotblocks::types::{BlockRef, Chunk, DatasetId, DatasetKind, DatasetLabel, TableId};

fn chunk(first: u64, last: u64, parent: &str, hash: &str) -> Chunk {
    Chunk::new(first, last, hash.to_string(), parent.to_string(), None)
}

fn tabled(first: u64, last: u64, parent: &str, hash: &str) -> Chunk {
    chunk(first, last, parent, hash)
        .with_table("blocks", TableId(first as u128 * 10))
        .with_table("transactions", TableId(first as u128 * 10 + 1))
}

fn block(number: u64, hash: &str) -> BlockRef {
    BlockRef { number, hash: hash.to_string() }
}

fn row(block_number: u64, transaction_index: u32, hash: &str) -> TransactionRow {
    TransactionRow { block_number, transaction_index, hash: hash.to_string() }
}

fn reading(entries: bool, blocks: Vec<BlockRef>, transactions: Vec<TransactionRow>) -> HashReading {
    HashReading {
        has_block_entries: entries,
        blocks,
        block_time: Duration::from_millis(1),
        has_transaction_entries: entries,
        transactions,
        transaction_time: Duration::from_millis(2),
    }
}

fn evm() -> DatasetLabel {
    DatasetLabel { kind: DatasetKind::from_str("evm"), finalized_head: None }
}

fn ds() -> DatasetId {
    DatasetId::from_str("eth")
}

/// What the changes are, shortly.
fn brief(changes: &[Mutation]) -> Vec<String> {
    changes
        .iter()
        .map(|c| match c {
            Mutation::PutLabel { dataset, .. } => format!("+label {}", dataset.as_str()),
            Mutation::DeleteLabel { dataset } => format!("-label {}", dataset.as_str()),
            Mutation::PutChunk { chunk, .. } => format!("+chunk {}..{}", chunk.first_block(), chunk.last_block()),
            Mutation::DeleteChunk { chunk, .. } => format!("-chunk {}..{}", chunk.first_block(), chunk.last_block()),
            Mutation::ClearDirtyTable { table } => format!("-dirty {}", table.0),
            Mutation::MarkDeletedTable { table } => format!("+deleted {}", table.0),
            Mutation::PutBlockHash { hash, height, .. } => format!("+block {} {:?}", hash, height),
            Mutation::DeleteBlockHash { hash, .. } => format!("-block {}", hash),
            Mutation::PutTransactionHash { hash, place, .. } => format!("+tx {} {:?}", hash, place),
            Mutation::DeleteTransactionHash { hash, .. } => format!("-tx {}", hash),
        })
        .collect()
}

#[test]
fn positions_are_written_most_significant_first() {
    assert_eq!(encode_block_number(0x0102030405060708), [1, 2, 3, 4, 5, 6, 7, 8]);
    assert_eq!(
        encode_transaction_position(0x0102030405060708, 0x090a0b0c),
        [1, 2, 3, 4, 5, 6, 7, 8, 9, 10, 11, 12]
    );
    assert_eq!(encode_transaction_position(u64::MAX, u32::MAX), [255; 12]);
}

#[test]
fn only_evm_datasets_are_indexed() {
    assert!(is_indexed_kind(&DatasetKind::from_str("evm")));
    assert!(!is_indexed_kind(&DatasetKind::from_str("hyperliquid-fills")));
}

#[test]
fn labels_and_chunks_are_staged() {
    let mut tx = Tx::new();
    tx.write_label(&ds(), &evm());
    tx.delete_label(&ds());
    tx.write_chunk(&ds(), &tabled(1, 2, "0x0", "0x2"));
    tx.delete_chunk(&ds(), &tabled(1, 2, "0x0", "0x2"));
    tx.delete_table(TableId(7));
    assert_eq!(
        brief(&tx.take_staged()),
        vec![
            "+label eth",
            "-label eth",
            "+chunk 1..2",
            "-dirty 10",
            "-dirty 11",
            "-chunk 1..2",
            "+deleted 10",
            "+deleted 11",
            "+deleted 7"
        ]
    );
    assert!(tx.commit().0.is_empty());
}

#[test]
fn labels_are_found_as_they_were_written() {
    let label = DatasetLabel { kind: DatasetKind::from_str("evm"), finalized_head: Some(block(7, "0x7")) };
    let bytes = encode_label(&label).unwrap();
    assert_eq!(bytes[..7], [3, 0, 0, 0, b'e', b'v', b'm']);
    assert_eq!(decode_label(&bytes).unwrap(), label);
    assert_eq!(Tx::find_label_for_update(Some(&bytes)).unwrap(), Some(label));
    assert_eq!(decode_label(&encode_label(&evm()).unwrap()).unwrap(), evm());
    assert_eq!(Tx::find_label_for_update(None).unwrap(), None);
    let mut longer = bytes.clone();
    longer.push(0);
    assert_eq!(decode_label(&longer), Err(Corrupt {}));
    assert_eq!(decode_label(&bytes[..5].to_vec()), Err(Corrupt {}));
}

#[test]
fn chunks_are_read_as_they_were_written() {
    let c = Chunk::new(3, 9, "0x9".to_string(), "0x2".to_string(), Some(-5))
        .with_table("blocks", TableId(u128::MAX))
        .with_table("logs", TableId(2));
    let bytes = encode_chunk(&c).unwrap();
    assert_eq!(decode_chunk(&bytes).unwrap(), c);
    assert_eq!(decode_chunk(&vec![]), Err(Corrupt {}));
    let bare = chunk(0, 0, "", "");
    assert_eq!(decode_chunk(&encode_chunk(&bare).unwrap()).unwrap(), bare);
}

#[test]
fn the_bytes_of_labels_and_chunks() {
    let label = DatasetLabel { kind: DatasetKind::from_str("evm"), finalized_head: Some(block(0x0107, "0x\u{e9}")) };
    let bytes = encode_label(&label).unwrap();
    assert_eq!(
        bytes,
        vec![
            3, 0, 0, 0, b'e', b'v', b'm', 1, 7, 1, 0, 0, 0, 0, 0, 0, 4, 0, 0, 0, b'0', b'x', 0xc3, 0xa9
        ]
    );
    let mut flagged = bytes.clone();
    flagged[7] = 2;
    assert_eq!(decode_label(&flagged), Err(Corrupt {}));
    let mut torn = bytes.clone();
    torn[23] = b'x';
    assert_eq!(decode_label(&torn), Err(Corrupt {}));
    assert_eq!(encode_label(&evm()).unwrap(), vec![3, 0, 0, 0, b'e', b'v', b'm', 0]);

    let c = Chunk::new(3, 9, "h".to_string(), "".to_string(), Some(-2)).with_table("t", TableId(5));
    let mut expected = vec![3, 0, 0, 0, 0, 0, 0, 0, 9, 0, 0, 0, 0, 0, 0, 0, 1, 0, 0, 0, b'h', 0, 0, 0, 0];
    expected.extend([1, 0xfe, 0xff, 0xff, 0xff, 0xff, 0xff, 0xff, 0xff, 1, 0, 0, 0, 1, 0, 0, 0, b't', 5]);
    expected.extend([0u8; 15]);
    assert_eq!(encode_chunk(&c).unwrap(), expected);
    assert_eq!(decode_chunk(&expected).unwrap(), c);
}

#[test]
fn a_missing_label_is_an_error() {
    let bytes = encode_label(&evm()).unwrap();
    assert_eq!(Tx::get_label_for_update(&ds(), Some(&bytes)).unwrap(), evm());
    match Tx::get_label_for_update(&ds(), None) {
        Err(TxError::DatasetNotFound { dataset }) => assert_eq!(dataset.as_str(), "eth"),
        other => panic!("{:?}", other),
    }
    assert!(matches!(
        Tx::get_label_for_update(&ds(), Some(&vec![1])),
        Err(TxError::CorruptLabel { .. })
    ));
}

#[test]
fn indexing_follows_the_switches_and_the_kind() {
    let c = tabled(1, 1, "0x0", "0x1");
    let r = reading(false, vec![block(1, "0x1")], vec![row(1, 0, "0xt")]);
    let staged = |mut tx: Tx, label: Option<&DatasetLabel>| {
        tx.index_hashes(&ds(), &c, label, &r);
        let (changes, metrics) = tx.commit();
        (
            brief(&changes),
            metrics.block_hash_index_operations(),
            metrics.transaction_hash_index_operations(),
        )
    };
    let put_block = "+block 0x1 [0, 0, 0, 0, 0, 0, 0, 1]".to_string();
    let put_tx = "+tx 0xt [0, 0, 0, 0, 0, 0, 0, 1, 0, 0, 0, 0]".to_string();
    assert_eq!(staged(Tx::new(), Some(&evm())), (vec![], 0, 0));
    assert_eq!(
        staged(Tx::new().with_block_hash_index(true), Some(&evm())),
        (vec![put_block.clone()], 1, 0)
    );
    assert_eq!(
        staged(Tx::new().with_transaction_hash_index(true), Some(&evm())),
        (vec![put_tx.clone()], 0, 1)
    );
    let both = || Tx::new().with_block_hash_index(true).with_transaction_hash_index(true);
    assert_eq!(staged(both(), Some(&evm())), (vec![put_block, put_tx], 1, 1));
    assert_eq!(staged(both(), None), (vec![], 0, 0));
    let solana = DatasetLabel { kind: DatasetKind::from_str("solana"), finalized_head: None };
    assert_eq!(staged(both(), Some(&solana)), (vec![], 0, 0));
}

#[test]
fn unindexing_does_not_depend_on_the_switches() {
    let c = tabled(1, 1, "0x0", "0x1");
    let mut tx = Tx::new();
    tx.unindex_hashes(&ds(), &c, &reading(true, vec![block(1, "0x1")], vec![row(1, 0, "0xt")]));
    let (changes, metrics) = tx.commit();
    assert_eq!(brief(&changes), vec!["-block 0x1", "-tx 0xt"]);
    assert_eq!(metrics.block_hash_index_duration(), Some(Duration::from_millis(1)));
    assert_eq!(metrics.transaction_hash_index_duration(), Some(Duration::from_millis(2)));

    // Where there is no entry at all, and where a table is missing.
    let mut tx = Tx::new();
    tx.unindex_hashes(&ds(), &c, &reading(false, vec![block(1, "0x1")], vec![]));
    tx.unindex_hashes(&ds(), &chunk(1, 1, "0x0", "0x1"), &reading(true, vec![block(1, "0x1")], vec![]));
    let (changes, metrics) = tx.commit();
    assert!(changes.is_empty());
    assert_eq!(metrics.block_hash_index_operations(), 2);
}

fn stored(c: Chunk, blocks: Vec<BlockRef>) -> StoredHead {
    StoredHead { chunk: c, reading: reading(true, blocks, vec![]) }
}

#[test]
fn a_fork_replaces_the_top_of_the_chain() {
    let heads = vec![
        stored(tabled(5, 6, "0x4", "0x6"), vec![block(5, "0x5"), block(6, "0x6")]),
        stored(tabled(3, 4, "0x2", "0x4"), vec![block(3, "0x3"), block(4, "0x4")]),
        stored(tabled(1, 2, "0x0", "0x2"), vec![]),
    ];
    let mut tx = Tx::new().with_block_hash_index(true);
    let new = tabled(3, 9, "0x2", "0x9x");
    let result = tx.insert_fork(&ds(), &new, &heads, Some(&evm()), &reading(false, vec![block(9, "0x9x")], vec![]));
    assert!(result.is_ok());
    assert_eq!(
        brief(&tx.take_staged()),
        vec![
            "-block 0x5",
            "-block 0x6",
            "-chunk 5..6",
            "+deleted 50",
            "+deleted 51",
            "-block 0x3",
            "-block 0x4",
            "-chunk 3..4",
            "+deleted 30",
            "+deleted 31",
            "+chunk 3..9",
            "-dirty 30",
            "-dirty 31",
            "+block 0x9x [0, 0, 0, 0, 0, 0, 0, 9]"
        ]
    );
}

#[test]
fn a_fork_must_fit_on_the_chain() {
    let insert = |new: Chunk, below: Chunk| {
        let mut tx = Tx::new();
        tx.insert_fork(&ds(), &new, &vec![stored(below, vec![])], None, &reading(false, vec![], vec![]))
    };
    let below = || chunk(1, 5, "0x0", "0x5");
    assert!(insert(chunk(6, 7, "0x5", "0x7"), below()).is_ok());
    assert!(insert(chunk(1, 7, "0xother", "0x7"), below()).is_ok());
    assert!(matches!(
        insert(chunk(6, 7, "0x5x", "0x7"), below()),
        Err(TxError::BrokenChain { parent, .. }) if parent.last_block() == 5
    ));
    assert!(matches!(
        insert(chunk(8, 9, "0x7", "0x9"), below()),
        Err(TxError::Gap { below, .. }) if below.last_block() == 5
    ));
    assert!(matches!(
        insert(chunk(3, 9, "0x2", "0x9"), below()),
        Err(TxError::Overlap { existing, .. }) if existing.first_block() == 1
    ));
    assert!(matches!(
        Tx::fork_step(&chunk(2, 3, "", ""), &chunk(0, u64::MAX, "", "")),
        Err(TxError::Overlap { .. })
    ));
    assert!(matches!(Tx::fork_step(&chunk(2, 3, "", ""), &below()), Err(TxError::Overlap { .. })));
    assert!(matches!(Tx::fork_step(&chunk(0, 3, "", ""), &below()), Ok(ForkStep::Replace)));
}

#[test]
fn a_chunk_fits_between_its_neighbors() {
    let existing = || vec![
        chunk(0, 1, "0x", "0x1"),
        chunk(2, 3, "0x1", "0x3"),
        chunk(6, 7, "0x5", "0x7"),
        chunk(8, 9, "0x7", "0x9"),
    ];
    assert!(Tx::validate_chunk_insertion(&chunk(4, 5, "0x3", "0x5"), &existing()).is_ok());
    assert!(Tx::validate_chunk_insertion(&chunk(20, 21, "0x", "0x"), &existing()).is_ok());
    assert!(Tx::validate_chunk_insertion(&chunk(4, 5, "0x3", "0x5"), &vec![]).is_ok());
    assert!(matches!(
        Tx::validate_chunk_insertion(&chunk(4, 5, "0x3", "0x5x"), &existing()),
        Err(TxError::BrokenLink { neighbor, .. }) if neighbor.first_block() == 6
    ));
    assert!(matches!(
        Tx::validate_chunk_insertion(&chunk(4, 5, "0x3x", "0x5"), &existing()),
        Err(TxError::BrokenLink { neighbor, .. }) if neighbor.first_block() == 2
    ));
    assert!(matches!(
        Tx::validate_chunk_insertion(&chunk(3, 5, "0x2", "0x5"), &existing()),
        Err(TxError::Overlap { existing, .. }) if existing.first_block() == 2
    ));
    assert!(matches!(
        Tx::validate_chunk_insertion(&chunk(5, 4, "0x", "0x"), &existing()),
        Err(TxError::EmptyChunk)
    ));
}

#[test]
fn parent_hashes_are_known_at_the_bounds() {
    let c = tabled(10, 19, "0x9", "0x13");
    let is = |number: u64, hash: &str| Tx::validate_parent_block_hash(&c, number, &hash.to_string());
    assert!(matches!(is(10, "0x9"), Ok(ParentHash::Matches)));
    assert!(matches!(is(10, "0x"), Ok(ParentHash::Differs(h)) if h == "0x9"));
    assert!(matches!(is(20, "0x13"), Ok(ParentHash::Matches)));
    assert!(matches!(is(20, "0x"), Ok(ParentHash::Differs(h)) if h == "0x13"));
    assert!(matches!(is(15, "0x"), Ok(ParentHash::InTable(TableId(100)))));
    assert!(matches!(is(9, "0x"), Err(TxError::NoParentHash { block_number: 9, .. })));
    assert!(matches!(is(21, "0x"), Err(TxError::NoParentHash { block_number: 21, .. })));
    let bare = chunk(10, 19, "0x9", "0x13");
    assert!(matches!(
        Tx::validate_parent_block_hash(&bare, 15, &"0x".to_string()),
        Err(TxError::NoBlocksTable { .. })
    ));
    assert_eq!(Tx::check_parent_hash("0xa".to_string(), &"0xa".to_string()), Ok(()));
    assert_eq!(Tx::check_parent_hash("0xa".to_string(), &"0xb".to_string()), Err("0xa".to_string()));
}

#[test]
fn heights_are_looked_up_in_their_chunk() {
    let existing = vec![tabled(0, 1, "0x", "0x1"), tabled(4, 5, "0x3", "0x5"), chunk(6, 7, "0x5", "0x7")];
    assert!(matches!(Tx::find_stored_block_hash(&existing, 1), Ok(Some(TableId(0)))));
    assert!(matches!(Tx::find_stored_block_hash(&existing, 4), Ok(Some(TableId(40)))));
    assert!(matches!(Tx::find_stored_block_hash(&existing, 3), Ok(None)));
    assert!(matches!(Tx::find_stored_block_hash(&existing, 8), Ok(None)));
    assert!(matches!(Tx::find_stored_block_hash(&existing, 6), Err(TxError::NoBlocksTable { .. })));
    assert!(matches!(Tx::find_block_hash_in_chunk(&existing[1]), Ok(TableId(40))));
    let listed = |from: u64, to: Option<u64>| -> Vec<u64> {
        Tx::list_chunks(&existing, from, to).iter().map(|c| c.first_block()).collect()
    };
    assert_eq!(listed(0, None), vec![0, 4, 6]);
    assert_eq!(listed(2, Some(5)), vec![4]);
    assert_eq!(listed(5, Some(6)), vec![4, 6]);
    assert!(listed(2, Some(3)).is_empty());
}

fn history() -> Vec<StoredBlocks> {
    vec![
        StoredBlocks {
            chunk: tabled(1, 3, "0x0", "0x3"),
            blocks: vec![block(1, "0x1"), block(2, "0x2"), block(3, "0x3")],
        },
        StoredBlocks { chunk: tabled(4, 6, "0x3", "0x6"), blocks: vec![block(4, "0x4"), block(6, "0x6")] },
    ]
}

fn prefix(first: u64, up_to: u64, fresh: Vec<BlockRef>) -> Result<(), String> {
    Tx::validate_finalized_prefix(&tabled(first, 9, "0x", "0x"), up_to, &fresh, &history()).unwrap()
}

#[test]
fn an_equal_prefix_passes() {
    let fresh = || vec![block(2, "0x2"), block(3, "0x3"), block(4, "0x4"), block(6, "0x6x"), block(7, "0x7x")];
    assert_eq!(prefix(2, 4, fresh()), Ok(()));
    assert_eq!(prefix(2, 5, fresh()), Ok(()));
    assert_eq!(
        prefix(2, 6, fresh()),
        Err("expected finalized block 6#0x6, got 6#0x6x".to_string())
    );
}

#[test]
fn divergences_are_described() {
    assert_eq!(
        prefix(2, 4, vec![block(2, "0x2"), block(4, "0x4")]),
        Err("expected finalized block 3#0x3, got 4#0x4".to_string())
    );
    assert_eq!(
        prefix(2, 4, vec![block(2, "0x2"), block(3, "0x3")]),
        Err("finalized block 4#0x4 is missing from the replacement".to_string())
    );
    assert_eq!(
        prefix(6, 9, vec![block(6, "0x6"), block(8, "0x8")]),
        Err("block 8#0x8 is not part of the stored finalized history".to_string())
    );
}

#[test]
fn chunks_without_blocks_cannot_be_compared() {
    let bare = chunk(1, 2, "0x", "0x");
    assert!(matches!(
        Tx::validate_finalized_prefix(&bare, 2, &vec![], &history()),
        Err(TxError::NoBlocksTable { .. })
    ));
    // A stored chunk without blocks matters only once it is reached.
    let stored = vec![
        StoredBlocks { chunk: tabled(1, 1, "0x", "0x1"), blocks: vec![block(1, "0x1")] },
        StoredBlocks { chunk: chunk(2, 2, "0x1", "0x2"), blocks: vec![] },
    ];
    let new = tabled(1, 2, "0x", "0x");
    assert!(matches!(
        Tx::validate_finalized_prefix(&new, 2, &vec![block(1, "0x1"), block(2, "0x2")], &stored),
        Err(TxError::NoBlocksTable { chunk }) if chunk.first_block() == 2
    ));
    assert!(matches!(
        Tx::validate_finalized_prefix(&new, 2, &vec![block(1, "0x1x")], &stored),
        Ok(Err(_))
    ));
}

#[test]
fn a_comparison_holds_one_stored_chunk_at_a_time() {
    let mut check = PrefixCheck::new(1, 4);
    assert_eq!(check.offer(1, &"0x1".to_string()), PrefixAsk::LoadStored);
    check.load(&history()[0].blocks);
    assert_eq!(check.offer(1, &"0x1".to_string()), PrefixAsk::Next);
    assert_eq!(check.offer(9, &"0x9".to_string()), PrefixAsk::Next);
    assert_eq!(check.offer(2, &"0x2".to_string()), PrefixAsk::Next);
    assert_eq!(check.offer(3, &"0x3".to_string()), PrefixAsk::Next);
    assert!(check.finish().is_none());
    check.load(&history()[1].blocks);
    assert_eq!(check.offer(4, &"0x4".to_string()), PrefixAsk::Next);
    assert!(check.finish().is_none());
    check.no_more_stored();
    assert_eq!(check.finish(), Some(Ok(())));
    assert_eq!(
        read_block_hashes(&history()[0].blocks, 2, 2),
        vec![block(2, "0x2")]
    );
}

#[test]
fn a_table_name_stands_for_one_table() {
    let c = tabled(1, 2, "0x0", "0x2").with_table("blocks", TableId(99));
    assert_eq!(c.table_count(), 2);
    assert_eq!(c.table("blocks"), Some(TableId(99)));
    assert_eq!(c.table("transactions"), Some(TableId(11)));
    assert_eq!(c.table("logs"), None);
}

#[test]
fn a_fork_leaves_only_the_hashes_of_the_new_chunk() {
    let mut index = BTreeSet::from(["0x1".to_string(), "0x2".to_string(), "0x3".to_string(), "0x4".to_string()]);
    let heads = vec![
        stored(tabled(4, 4, "0x3", "0x4"), vec![block(4, "0x4")]),
        stored(tabled(2, 3, "0x1", "0x3"), vec![block(2, "0x2"), block(3, "0x3")]),
        stored(tabled(1, 1, "0x0", "0x1"), vec![block(1, "0x1")]),
    ];
    let mut tx = Tx::new().with_block_hash_index(true);
    let fresh = vec![block(2, "0x2"), block(3, "0x3x")];
    tx.insert_fork(&ds(), &tabled(2, 3, "0x1", "0x3x"), &heads, Some(&evm()), &reading(false, fresh, vec![])).unwrap();
    for change in tx.take_staged() {
        match change {
            Mutation::PutBlockHash { hash, .. } => {
                index.insert(hash);
            }
            Mutation::DeleteBlockHash { hash, .. } => {
                index.remove(&hash);
            }
            _ => {}
        }
    }
    assert_eq!(index, BTreeSet::from(["0x1".to_string(), "0x2".to_string(), "0x3x".to_string()]));
}
