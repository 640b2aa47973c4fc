//! The parts of an EVM block.
use crate::evm::data_mask::DataMask;
use crate::evm::quantity::HexBytes;
use crate::text::same_text;
use crate::types::{BlockNumber, ItemIndex};
use vstd::prelude::*;

verus! {

/// A withdrawal from the beacon chain.
#[derive(Debug)]
pub struct Withdrawal {
    pub address: HexBytes,
    pub amount: HexBytes,
    pub index: HexBytes,
    pub validator_index: HexBytes,
}

/// The header of a block.
#[derive(Debug)]
pub struct BlockHeader {
    pub number: BlockNumber,
    pub hash: HexBytes,
    pub parent_hash: HexBytes,
    pub timestamp: i64,
    pub transactions_root: HexBytes,
    pub receipts_root: HexBytes,
    pub state_root: HexBytes,
    pub logs_bloom: HexBytes,
    pub sha3_uncles: HexBytes,
    pub extra_data: HexBytes,
    pub miner: HexBytes,
    pub nonce: Option<HexBytes>,
    pub mix_hash: Option<HexBytes>,
    pub size: u64,
    pub gas_limit: HexBytes,
    pub gas_used: HexBytes,
    pub difficulty: Option<HexBytes>,
    pub total_difficulty: Option<HexBytes>,
    pub base_fee_per_gas: Option<HexBytes>,
    pub uncles: Option<Vec<HexBytes>>,
    pub withdrawals: Option<Vec<Withdrawal>>,
    pub withdrawals_root: Option<HexBytes>,
    pub blob_gas_used: Option<HexBytes>,
    pub excess_blob_gas: Option<HexBytes>,
    pub parent_beacon_block_root: Option<HexBytes>,
    pub requests_hash: Option<HexBytes>,
    pub l1_block_number: Option<BlockNumber>,
    // Fields of Tempo headers.
    pub main_block_general_gas_limit: Option<HexBytes>,
    pub shared_gas_limit: Option<HexBytes>,
    pub timestamp_millis_part: Option<HexBytes>,
}

/// An authorization to set code, as EIP-7702 has it.
#[derive(Debug)]
pub struct EIP7702Authorization {
    pub chain_id: HexBytes,
    pub address: HexBytes,
    pub nonce: u64,
    pub y_parity: u8,
    // Signature data of a fixed size, not quantities: a number would lose leading
    // zero bytes.
    pub r: HexBytes,
    pub s: HexBytes,
}

/// One call of a batched Tempo transaction.
#[derive(Debug)]
pub struct TempoCall {
    pub to: Option<HexBytes>,
    pub value: HexBytes,
    pub input: HexBytes,
}

/// A signature by a single key.
#[derive(Debug)]
pub enum TempoPrimitiveSignature {
    Secp256k1 {
        r: HexBytes,
        s: HexBytes,
        y_parity: Option<u8>,
        v: Option<u8>,
    },
    P256 {
        r: HexBytes,
        s: HexBytes,
        pub_key_x: HexBytes,
        pub_key_y: HexBytes,
        pre_hash: bool,
    },
    WebAuthn {
        r: HexBytes,
        s: HexBytes,
        pub_key_x: HexBytes,
        pub_key_y: HexBytes,
        webauthn_data: HexBytes,
    },
}

/// A signature by a key of a keychain.
#[derive(Debug)]
pub struct TempoKeychainSignature {
    pub user_address: HexBytes,
    pub signature: TempoPrimitiveSignature,
    pub version: Option<String>,
}

/// A signature of a Tempo transaction.
#[derive(Debug)]
pub enum TempoSignature {
    Keychain(TempoKeychainSignature),
    Primitive(TempoPrimitiveSignature),
}

/// A signed authorization of a Tempo transaction.
#[derive(Debug)]
pub struct TempoSignedAuthorization {
    pub chain_id: HexBytes,
    pub address: HexBytes,
    pub nonce: u64,
    pub signature: TempoSignature,
}

/// How much of a token a key may spend.
#[derive(Debug)]
pub struct TempoTokenLimit {
    pub token: HexBytes,
    pub limit: HexBytes,
}

/// A signed authorization of a key.
#[derive(Debug)]
pub struct TempoSignedKeyAuthorization {
    pub chain_id: HexBytes,
    pub key_type: String,
    pub key_id: HexBytes,
    pub expiry: Option<HexBytes>,
    pub limits: Option<Vec<TempoTokenLimit>>,
    pub signature: TempoPrimitiveSignature,
}

/// The signature of whoever pays the fee.
#[derive(Debug)]
pub struct TempoFeePayerSignature {
    pub v: u8,
    pub r: HexBytes,
    pub s: HexBytes,
}

/// An address and the storage keys of it that a transaction touches.
#[derive(Debug)]
pub struct AccessListItem {
    pub address: HexBytes,
    pub storage_keys: Vec<HexBytes>,
}

/// A transaction with its receipt.
#[derive(Debug)]
pub struct Transaction {
    pub transaction_index: ItemIndex,
    pub hash: HexBytes,
    pub nonce: u64,
    pub from: HexBytes,
    pub to: Option<HexBytes>,
    // Missing where there are batched `calls` instead.
    pub input: Option<HexBytes>,
    // Missing where there are batched `calls` instead.
    pub value: Option<HexBytes>,
    /// The type of the transaction.
    pub tx_type: Option<u64>,
    pub gas: HexBytes,
    pub gas_price: Option<HexBytes>,
    pub max_fee_per_gas: Option<HexBytes>,
    pub max_priority_fee_per_gas: Option<HexBytes>,
    pub v: Option<HexBytes>,
    // Signature data of a fixed size, not quantities.
    pub r: Option<HexBytes>,
    pub s: Option<HexBytes>,
    pub y_parity: Option<u8>,
    pub access_list: Option<Vec<AccessListItem>>,
    pub chain_id: Option<u64>,
    pub max_fee_per_blob_gas: Option<HexBytes>,

    pub blob_versioned_hashes: Option<Vec<HexBytes>>,
    pub authorization_list: Option<Vec<EIP7702Authorization>>,

    // Fields of Tempo transactions.
    pub calls: Option<Vec<TempoCall>>,
    pub nonce_key: Option<HexBytes>,
    pub fee_token: Option<HexBytes>,
    pub fee_payer_signature: Option<TempoFeePayerSignature>,
    pub signature: Option<TempoSignature>,
    pub valid_before: Option<HexBytes>,
    pub valid_after: Option<HexBytes>,
    pub aa_authorization_list: Option<Vec<TempoSignedAuthorization>>,
    pub key_authorization: Option<TempoSignedKeyAuthorization>,

    pub contract_address: Option<HexBytes>,
    pub cumulative_gas_used: HexBytes,
    pub effective_gas_price: Option<HexBytes>,
    pub gas_used: HexBytes,
    pub logs_bloom: HexBytes,
    pub status: Option<u8>,
    pub blob_gas_used: Option<HexBytes>,
    pub blob_gas_price: Option<HexBytes>,

    pub l1_base_fee_scalar: Option<u64>,
    pub l1_blob_base_fee: Option<HexBytes>,
    pub l1_blob_base_fee_scalar: Option<u64>,
    pub l1_fee: Option<HexBytes>,
    /// The bits of a 64-bit floating-point number.
    pub l1_fee_scalar: Option<u64>,
    pub l1_gas_price: Option<HexBytes>,
    pub l1_gas_used: Option<HexBytes>,
}

/// A log entry.
#[derive(Debug)]
pub struct Log {
    pub log_index: ItemIndex,
    pub transaction_index: ItemIndex,
    pub transaction_hash: HexBytes,
    pub address: HexBytes,
    pub data: HexBytes,
    pub topics: Vec<HexBytes>,
}

/// The creation of a contract.
#[derive(Debug)]
pub struct TraceActionCreate {
    pub from: HexBytes,
    pub value: Option<HexBytes>,
    pub gas: HexBytes,
    pub init: HexBytes,
    pub creation_method: Option<String>,
}

/// A call of a contract.
#[derive(Debug)]
pub struct TraceActionCall {
    pub from: HexBytes,
    pub to: HexBytes,
    pub value: Option<HexBytes>,
    pub gas: HexBytes,
    pub input: HexBytes,
    pub call_type: String,
}

/// A reward for a block.
#[derive(Debug)]
pub struct TraceActionReward {
    pub author: HexBytes,
    pub value: HexBytes,
    pub reward_type: String,
}

/// The destruction of a contract.
#[derive(Debug)]
pub struct TraceActionSelfDestruct {
    pub address: Option<HexBytes>,
    pub refund_address: HexBytes,
    pub balance: Option<HexBytes>,
}

/// What came of the creation of a contract.
#[derive(Debug)]
pub struct TraceResultCreate {
    pub gas_used: HexBytes,
    pub code: Option<HexBytes>,
    pub address: Option<HexBytes>,
}

/// What came of a call.
#[derive(Debug)]
pub struct TraceResultCall {
    pub gas_used: Option<HexBytes>,
    pub output: Option<HexBytes>,
}

/// A step of the execution of a transaction.
#[derive(Debug)]
pub struct Trace {
    pub transaction_index: u32,
    pub trace_address: Vec<u32>,
    pub subtraces: u32,
    pub error: Option<String>,
    pub revert_reason: Option<String>,
    pub op: TraceOp,
}

/// What a trace is about.
#[allow(inconsistent_fields)]
#[derive(Debug)]
pub enum TraceOp {
    Create {
        action: TraceActionCreate,
        result: Option<TraceResultCreate>,
    },
    Call {
        action: TraceActionCall,
        result: Option<TraceResultCall>,
    },
    SelfDestruct { action: TraceActionSelfDestruct },
    Reward { action: TraceActionReward },
}

/// A change of the state.
#[derive(Debug)]
pub struct StateDiff {
    pub transaction_index: ItemIndex,
    pub address: HexBytes,
    pub key: String,
    pub kind: String,
    pub prev: Option<HexBytes>,
    pub next: Option<HexBytes>,
}

/// A block with what came along with it.
#[derive(Debug)]
pub struct Block {
    pub header: BlockHeader,
    /// Empty where the source has named none.
    pub transactions: Vec<Transaction>,
    pub logs: Option<Vec<Log>>,
    pub traces: Option<Vec<Trace>>,
    pub state_diffs: Option<Vec<StateDiff>>,
}

/// The place in the mask of an optional part of a block.
pub open spec fn part_of(name: Seq<char>) -> Option<u32> {
    if name == "logs"@ {
        Some(0)
    } else if name == "traces"@ {
        Some(1)
    } else if name == "statediffs"@ {
        Some(2)
    } else {
        None
    }
}

/// Whether a block came with the optional part that has that place in the mask.
pub open spec fn offers(block: Block, part: u32) -> bool {
    ||| part == 0 && block.logs is Some
    ||| part == 1 && block.traces is Some
    ||| part == 2 && block.state_diffs is Some
}

/// Whether a mask says that the data called `name` is there. What is not optional
/// always is.
pub open spec fn says_data(mask: DataMask, name: Seq<char>) -> bool {
    match part_of(name) {
        Some(part) => mask.has(part),
        None => true,
    }
}

/// Whether a mask is that of the block.
pub open spec fn is_mask_of(mask: DataMask, block: Block) -> bool {
    forall|part: u32| part < 64 ==> #[trigger] mask.has(part) == offers(block, part)
}

/// The optional parts have names of their own.
pub proof fn lemma_part_names()
    ensures
        part_of("logs"@) == Some(0u32),
        part_of("traces"@) == Some(1u32),
        part_of("statediffs"@) == Some(2u32),
{
    reveal_strlit("logs");
    reveal_strlit("traces");
    reveal_strlit("statediffs");
    assert("logs"@.len() == 4);
    assert("traces"@.len() == 6);
    assert("statediffs"@.len() == 10);
}

impl Block {
    /// The height.
    pub fn number(&self) -> (number: BlockNumber)
        ensures
            number == self.header.number,
    {
        self.header.number
    }

    /// The hash.
    pub fn hash(&self) -> (hash: &str)
        ensures
            hash@ == self.header.hash@,
    {
        self.header.hash.as_str()
    }

    /// The height of the parent; the first block counts as its own.
    pub fn parent_number(&self) -> (number: BlockNumber)
        ensures
            number == if self.header.number == 0 {
                0
            } else {
                self.header.number - 1
            },
    {
        self.header.number.saturating_sub(1)
    }

    /// The hash of the parent.
    pub fn parent_hash(&self) -> (hash: &str)
        ensures
            hash@ == self.header.parent_hash@,
    {
        self.header.parent_hash.as_str()
    }

    /// The time in milliseconds. Where that does not fit in 64 bits it is the
    /// closest one that does, so that an absurd time does not become a plausible
    /// one.
    pub fn timestamp(&self) -> (time: Option<i64>)
        ensures
            time == Some(
                if self.header.timestamp * 1000 > i64::MAX {
                    i64::MAX
                } else if self.header.timestamp * 1000 < i64::MIN {
                    i64::MIN
                } else {
                    (self.header.timestamp * 1000) as i64
                },
            ),
    {
        let millis: i128 = self.header.timestamp as i128 * 1000;
        if millis > i64::MAX as i128 {
            Some(i64::MAX)
        } else if millis < i64::MIN as i128 {
            Some(i64::MIN)
        } else {
            Some(millis as i64)
        }
    }

    /// Which optional parts the block came with.
    pub fn data_availability_mask(&self) -> (mask: DataMask)
        ensures
            is_mask_of(mask, *self),
    {
        let mut mask: DataMask = DataMask::default();
        if self.logs.is_some() {
            mask.set(0);
        }
        if self.traces.is_some() {
            mask.set(1);
        }
        if self.state_diffs.is_some() {
            mask.set(2);
        }
        mask
    }

    /// Whether blocks with that mask have the data called `name`. What is not
    /// optional is always there.
    pub fn has_data(mask: DataMask, name: &str) -> (b: bool)
        ensures
            b == says_data(mask, name@),
    {
        if same_text(name, "logs") {
            mask.get(0)
        } else if same_text(name, "traces") {
            mask.get(1)
        } else if same_text(name, "statediffs") {
            mask.get(2)
        } else {
            true
        }
    }
}

} // verus!
