use hotblocks::evm::data_mask::DataMask;
use hotblocks::evm::model::{Block, BlockHeader};
use hotblocks::evm::quantity::{deserialize, deserialize_option, visit_str, visit_u64, NotAQuantity, Token};

fn header(number: u64, timestamp: i64) -> BlockHeader {
    let text = |s: &str| s.to_string();
    BlockHeader {
        number,
        hash: text("0x01"),
        parent_hash: text("0x02"),
        timestamp,
        transactions_root: text("0x03"),
        receipts_root: text("0x04"),
        state_root: text("0x05"),
        logs_bloom: text("0x06"),
        sha3_uncles: text("0x07"),
        extra_data: text("0x08"),
        miner: text("0x09"),
        nonce: None,
        mix_hash: None,
        size: 10,
        gas_limit: text("0x0"),
        gas_used: text("0x1"),
        difficulty: None,
        total_difficulty: None,
        base_fee_per_gas: None,
        uncles: None,
        withdrawals: None,
        withdrawals_root: None,
        blob_gas_used: None,
        excess_blob_gas: None,
        parent_beacon_block_root: None,
        requests_hash: None,
        l1_block_number: None,
        main_block_general_gas_limit: None,
        shared_gas_limit: None,
        timestamp_millis_part: None,
    }
}

fn block(number: u64, timestamp: i64) -> Block {
    Block { header: header(number, timestamp), transactions: vec![], logs: None, traces: None, state_diffs: None }
}

#[test]
fn quantities_are_numbers_or_text() {
    assert_eq!(deserialize(Token::U64(136_071_899)), Ok("0x81c4adb".to_string()));
    assert_eq!(deserialize(Token::U64(0)), Ok("0x0".to_string()));
    assert_eq!(deserialize(Token::Text("0x81c4adb".to_string())), Ok("0x81c4adb".to_string()));
    assert_eq!(
        deserialize(Token::U128(u128::MAX)),
        Ok("0xffffffffffffffffffffffffffffffff".to_string())
    );
    assert_eq!(deserialize(Token::Null), Err(NotAQuantity::Plain));
    assert_eq!(deserialize(Token::Other), Err(NotAQuantity::Plain));
    for n in [0u64, 1, 9, 10, 15, 16, 255, 256, 4095, u64::MAX] {
        assert_eq!(visit_u64(n), format!("0x{n:x}"));
    }
    assert_eq!(visit_str("0xAB"), "0xAB");
}

#[test]
fn optional_quantities_may_be_null() {
    assert_eq!(deserialize_option(Token::Null), Ok(None));
    assert_eq!(deserialize_option(Token::U64(31)), Ok(Some("0x1f".to_string())));
    assert_eq!(deserialize_option(Token::Text("0x1f".to_string())), Ok(Some("0x1f".to_string())));
    assert_eq!(deserialize_option(Token::Other), Err(NotAQuantity::Plain));
    assert_eq!(NotAQuantity::Plain.expecting(), "a hex string or an unsigned integer");
    assert_eq!(NotAQuantity::OrNull.expecting(), "a hex string, an unsigned integer, or null");
}

#[test]
fn blocks_tell_their_place_and_time() {
    let b = block(7, 3);
    assert_eq!(b.number(), 7);
    assert_eq!(b.hash(), "0x01");
    assert_eq!(b.parent_number(), 6);
    assert_eq!(b.parent_hash(), "0x02");
    assert_eq!(b.timestamp(), Some(3000));
    assert_eq!(block(0, i64::MAX / 2).timestamp(), Some(i64::MAX));
    assert_eq!(block(0, i64::MIN / 2).timestamp(), Some(i64::MIN));
    assert_eq!(block(0, -1).timestamp(), Some(-1000));
    assert_eq!(block(0, 0).parent_number(), 0);
}

#[test]
fn the_mask_tells_what_is_there() {
    let mut b = block(1, 1);
    b.traces = Some(vec![]);
    let mask = b.data_availability_mask();
    assert!(!Block::has_data(mask, "logs"));
    assert!(Block::has_data(mask, "traces"));
    assert!(!Block::has_data(mask, "statediffs"));
    assert!(Block::has_data(mask, "transactions"));
    b.logs = Some(vec![]);
    b.state_diffs = Some(vec![]);
    let mask = b.data_availability_mask();
    assert!(Block::has_data(mask, "logs"));
    assert!(Block::has_data(mask, "statediffs"));
    let mut one = DataMask::default();
    one.set(63);
    assert!(one.get(63) && !one.get(62) && !one.get(0));
}
