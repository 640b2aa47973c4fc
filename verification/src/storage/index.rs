//! The derived hash indexes and the time spent on them.
use crate::duration::{self, Duration};
use crate::types::{BlockNumber, DatasetKind, ItemIndex};
use vstd::prelude::*;

verus! {

/// Whether datasets of `kind` have derived hash indexes. Only those are covered
/// whose hashes are cryptographic: others can collide.
pub open spec fn indexed_kind(kind: Seq<char>) -> bool {
    kind == "evm"@
}

/// Whether datasets of `kind` have derived hash indexes.
pub fn is_indexed_kind(kind: &DatasetKind) -> (indexed: bool)
    ensures
        indexed == indexed_kind(kind@),
{
    kind.same(&DatasetKind::from_str("evm"))
}

/// One of the two hash indexes.
#[derive(Clone, Copy, Debug, PartialEq, Eq, Structural)]
pub enum HashIndex {
    Block,
    Transaction,
}

/// Time spent staging changes of the hash indexes, including work repeated after a
/// conflict. It is taken once per scan of a table, never once per entry.
#[derive(Clone, Copy, Debug)]
pub struct HashIndexWriteMetrics {
    block_hash_index_duration: Duration,
    block_hash_index_operations: u64,
    transaction_hash_index_duration: Duration,
    transaction_hash_index_operations: u64,
}

/// What was spent on one index: nanoseconds and scans.
pub struct IndexWork {
    pub nanos: nat,
    pub operations: u64,
}

/// What [`HashIndexWriteMetrics`] hold.
pub struct HashIndexWriteView {
    pub block: IndexWork,
    pub transaction: IndexWork,
}

impl View for HashIndexWriteMetrics {
    type V = HashIndexWriteView;

    closed spec fn view(&self) -> HashIndexWriteView {
        HashIndexWriteView {
            block: IndexWork {
                nanos: self.block_hash_index_duration@,
                operations: self.block_hash_index_operations,
            },
            transaction: IndexWork {
                nanos: self.transaction_hash_index_duration@,
                operations: self.transaction_hash_index_operations,
            },
        }
    }
}

impl IndexWork {
    /// No work at all.
    pub open spec fn none() -> IndexWork {
        IndexWork { nanos: 0, operations: 0 }
    }

    /// The two amounts of work together; times and counts stop at their limits.
    pub open spec fn plus(self, other: IndexWork) -> IndexWork {
        IndexWork {
            nanos: duration::smaller(self.nanos + other.nanos, duration::MAX_NANOS as nat),
            operations: if self.operations + other.operations > u64::MAX {
                u64::MAX
            } else {
                (self.operations + other.operations) as u64
            },
        }
    }

    /// The time spent, if there was any scan.
    pub open spec fn time(self) -> Option<nat> {
        if self.operations > 0 {
            Some(self.nanos)
        } else {
            None
        }
    }
}

impl HashIndexWriteView {
    /// No work at all.
    pub open spec fn none() -> HashIndexWriteView {
        HashIndexWriteView { block: IndexWork::none(), transaction: IndexWork::none() }
    }

    /// The work together with one more scan that took that many nanoseconds.
    pub open spec fn recorded(self, index: HashIndex, nanos: nat) -> HashIndexWriteView {
        let scan = IndexWork { nanos, operations: 1 };
        match index {
            HashIndex::Block => HashIndexWriteView { block: self.block.plus(scan), ..self },
            HashIndex::Transaction => HashIndexWriteView { transaction: self.transaction.plus(scan), ..self },
        }
    }

    /// Whether the times are such as a [`Duration`] can hold.
    pub open spec fn in_range(self) -> bool {
        self.block.nanos <= duration::MAX_NANOS && self.transaction.nanos <= duration::MAX_NANOS
    }

    /// The two amounts of work together.
    pub open spec fn merged(self, other: HashIndexWriteView) -> HashIndexWriteView {
        HashIndexWriteView {
            block: self.block.plus(other.block),
            transaction: self.transaction.plus(other.transaction),
        }
    }
}

impl Default for HashIndexWriteMetrics {
    fn default() -> (metrics: Self)
        ensures
            metrics@ == HashIndexWriteView::none(),
            metrics@.in_range(),
    {
        HashIndexWriteMetrics {
            block_hash_index_duration: Duration::zero(),
            block_hash_index_operations: 0,
            transaction_hash_index_duration: Duration::zero(),
            transaction_hash_index_operations: 0,
        }
    }
}

impl HashIndexWriteMetrics {
    #[verifier::type_invariant]
    pub open spec fn times_in_range(self) -> bool {
        self@.in_range()
    }

    /// Time spent on the block-hash index, if it was scanned at all.
    pub fn block_hash_index_duration(&self) -> (time: Option<Duration>)
        ensures
            time is Some == self@.block.time() is Some,
            time matches Some(t) ==> self@.block.time() == Some(t@),
    {
        if self.block_hash_index_operations > 0 {
            Some(self.block_hash_index_duration)
        } else {
            None
        }
    }

    /// Number of block-hash index scans, repeated attempts included.
    pub fn block_hash_index_operations(&self) -> (n: u64)
        ensures
            n == self@.block.operations,
    {
        self.block_hash_index_operations
    }

    /// Time spent on the transaction-hash index, if it was scanned at all.
    pub fn transaction_hash_index_duration(&self) -> (time: Option<Duration>)
        ensures
            time is Some == self@.transaction.time() is Some,
            time matches Some(t) ==> self@.transaction.time() == Some(t@),
    {
        if self.transaction_hash_index_operations > 0 {
            Some(self.transaction_hash_index_duration)
        } else {
            None
        }
    }

    /// Number of transaction-hash index scans, repeated attempts included.
    pub fn transaction_hash_index_operations(&self) -> (n: u64)
        ensures
            n == self@.transaction.operations,
    {
        self.transaction_hash_index_operations
    }

    /// Adds one scan.
    pub fn record(&mut self, index: HashIndex, duration: Duration)
        ensures
            final(self)@ == old(self)@.recorded(index, duration@),
            final(self)@.in_range(),
    {
        proof {
            use_type_invariant(&*self);
        }
        match index {
            HashIndex::Block => {
                self.block_hash_index_duration = self.block_hash_index_duration.saturating_add(duration);
                self.block_hash_index_operations = self.block_hash_index_operations.saturating_add(1);
            },
            HashIndex::Transaction => {
                self.transaction_hash_index_duration = self.transaction_hash_index_duration.saturating_add(duration);
                self.transaction_hash_index_operations = self.transaction_hash_index_operations.saturating_add(1);
            },
        }
    }

    /// Adds the work of `other`.
    pub fn merge(&mut self, other: HashIndexWriteMetrics)
        ensures
            final(self)@ == old(self)@.merged(other@),
            final(self)@.in_range(),
    {
        proof {
            use_type_invariant(&*self);
        }
        self.block_hash_index_duration = self.block_hash_index_duration.saturating_add(
            other.block_hash_index_duration,
        );
        self.block_hash_index_operations = self.block_hash_index_operations.saturating_add(
            other.block_hash_index_operations,
        );
        self.transaction_hash_index_duration = self.transaction_hash_index_duration.saturating_add(
            other.transaction_hash_index_duration,
        );
        self.transaction_hash_index_operations = self.transaction_hash_index_operations.saturating_add(
            other.transaction_hash_index_operations,
        );
    }
}

/// The byte of `n` that counts `weight`s.
pub open spec fn byte_of(n: nat, weight: nat) -> u8 {
    ((n / weight) % 256) as u8
}

/// `n` in eight bytes, most significant first.
pub open spec fn be_bytes_8(n: u64) -> Seq<u8> {
    seq![
        byte_of(n as nat, 0x100_0000_0000_0000),
        byte_of(n as nat, 0x1_0000_0000_0000),
        byte_of(n as nat, 0x100_0000_0000),
        byte_of(n as nat, 0x1_0000_0000),
        byte_of(n as nat, 0x100_0000),
        byte_of(n as nat, 0x1_0000),
        byte_of(n as nat, 0x100),
        byte_of(n as nat, 1),
    ]
}

/// `n` in four bytes, most significant first.
pub open spec fn be_bytes_4(n: u32) -> Seq<u8> {
    seq![
        byte_of(n as nat, 0x100_0000),
        byte_of(n as nat, 0x1_0000),
        byte_of(n as nat, 0x100),
        byte_of(n as nat, 1),
    ]
}

/// The value of bytes read most significant first.
pub open spec fn be_value(bytes: Seq<u8>) -> nat
    decreases bytes.len(),
{
    if bytes.len() == 0 {
        0
    } else {
        be_value(bytes.drop_last()) * 256 + bytes.last() as nat
    }
}

/// A height as stored in the block-hash index: eight bytes, most significant first.
pub fn encode_block_number(number: BlockNumber) -> (bytes: [u8; 8])
    ensures
        bytes@ == be_bytes_8(number),
{
    let bytes: [u8; 8] = [
        (number / 0x100_0000_0000_0000 % 256) as u8,
        (number / 0x1_0000_0000_0000 % 256) as u8,
        (number / 0x100_0000_0000 % 256) as u8,
        (number / 0x1_0000_0000 % 256) as u8,
        (number / 0x100_0000 % 256) as u8,
        (number / 0x1_0000 % 256) as u8,
        (number / 0x100 % 256) as u8,
        (number % 256) as u8,
    ];
    assert(bytes@ =~= be_bytes_8(number));
    bytes
}

/// The place of a transaction as stored in the transaction-hash index: the height
/// of its block in eight bytes, then its position in four, most significant first.
pub fn encode_transaction_position(block_number: BlockNumber, transaction_index: ItemIndex) -> (bytes: [u8; 12])
    ensures
        bytes@ == be_bytes_8(block_number) + be_bytes_4(transaction_index),
{
    let high: [u8; 8] = encode_block_number(block_number);
    let bytes: [u8; 12] = [
        high[0],
        high[1],
        high[2],
        high[3],
        high[4],
        high[5],
        high[6],
        high[7],
        (transaction_index / 0x100_0000 % 256) as u8,
        (transaction_index / 0x1_0000 % 256) as u8,
        (transaction_index / 0x100 % 256) as u8,
        (transaction_index % 256) as u8,
    ];
    assert(bytes@ =~= be_bytes_8(block_number) + be_bytes_4(transaction_index));
    bytes
}

} // verus!
