//! The records a chain store holds, as plain values.

use vstd::prelude::*;

use crate::primitives::{Address, B256, U256};

verus! {

/// The header fields the queries read.
#[derive(Clone, Copy, Debug, PartialEq, Eq)]
pub struct BlockHeader {
    pub number: u64,
    pub hash: B256,
    pub parent_hash: B256,
    pub timestamp: u64,
    pub gas_used: u64,
    pub state_root: B256,
}

/// The run of record numbers `first_tx_num .. first_tx_num + tx_count` that
/// holds a block's transactions and receipts. The run always ends within the
/// record space: a value whose end would pass `u64::MAX` cannot be built.
#[derive(Clone, Copy, Debug, PartialEq, Eq)]
pub struct BlockBodyIndices {
    first_tx_num: u64,
    tx_count: u64,
}

impl BlockBodyIndices {
    #[verifier::type_invariant]
    spec fn in_record_space(self) -> bool {
        self.first_tx_num + self.tx_count <= u64::MAX
    }

    /// The first record number of the block.
    pub closed spec fn first(self) -> u64 {
        self.first_tx_num
    }

    /// How many records the block has.
    pub closed spec fn count(self) -> u64 {
        self.tx_count
    }

    /// The record number just past the block's last record.
    pub open spec fn end(self) -> int {
        self.first() + self.count()
    }

    /// The indices of a block with `tx_count` records from `first_tx_num` on,
    /// unless the run would leave the record space.
    pub fn new(first_tx_num: u64, tx_count: u64) -> (indices: Option<BlockBodyIndices>)
        ensures
            first_tx_num + tx_count > u64::MAX ==> indices is None,
            first_tx_num + tx_count <= u64::MAX ==> indices is Some && indices.unwrap().first()
                == first_tx_num && indices.unwrap().count() == tx_count,
    {
        if first_tx_num <= u64::MAX - tx_count {
            Some(BlockBodyIndices { first_tx_num, tx_count })
        } else {
            None
        }
    }

    pub fn first_tx_num(&self) -> (first: u64)
        ensures
            first == self.first(),
    {
        self.first_tx_num
    }

    pub fn tx_count(&self) -> (count: u64)
        ensures
            count == self.count(),
    {
        self.tx_count
    }

    /// The record number just past the block's last record.
    pub fn end_tx_num(&self) -> (end: u64)
        ensures
            end == self.end(),
    {
        proof {
            use_type_invariant(self);
        }
        self.first_tx_num + self.tx_count
    }
}

/// The encoding family of a transaction or receipt.
#[derive(Clone, Copy, Debug, PartialEq, Eq, Structural)]
pub enum TxType {
    Legacy,
    Eip2930,
    Eip1559,
    Eip4844,
    Eip7702,
}

/// What a receipt tells about the outcome of its transaction.
#[derive(Clone, Copy, Debug, PartialEq, Eq)]
pub struct ReceiptSummary {
    pub success: bool,
    pub cumulative_gas_used: u64,
    pub log_count: usize,
    pub tx_type: TxType,
}

/// An account in the latest state.
#[derive(Clone, Copy, Debug, PartialEq, Eq)]
pub struct AccountState {
    pub balance: U256,
    pub nonce: u64,
    pub code_present: bool,
}

/// One storage cell of an account.
#[derive(Clone, Copy, Debug, PartialEq, Eq)]
pub struct StorageSlot {
    pub key: U256,
    pub value: U256,
}

/// The fields every transaction has, whatever its encoding.
#[derive(Clone, Debug, PartialEq, Eq)]
pub struct TxCommon {
    pub hash: B256,
    pub nonce: u64,
    pub gas_limit: u64,
    /// The destination; `None` for a transaction that creates a contract.
    pub to: Option<Address>,
    pub value: U256,
    pub input: Vec<u8>,
}

/// A signed transaction, one case per encoding, each with the fee fields that
/// encoding has.
#[derive(Clone, Debug, PartialEq, Eq)]
pub enum Transaction {
    Legacy { common: TxCommon, gas_price: u128 },
    Eip2930 { common: TxCommon, gas_price: u128 },
    Eip1559 { common: TxCommon, max_fee_per_gas: u128, max_priority_fee_per_gas: Option<u128> },
    Eip4844 { common: TxCommon, max_fee_per_gas: u128, max_priority_fee_per_gas: Option<u128> },
    Eip7702 { common: TxCommon, max_fee_per_gas: u128, max_priority_fee_per_gas: Option<u128> },
}

impl Transaction {
    /// The fields shared by all encodings.
    pub open spec fn common(self) -> TxCommon {
        match self {
            Transaction::Legacy { common, .. } => common,
            Transaction::Eip2930 { common, .. } => common,
            Transaction::Eip1559 { common, .. } => common,
            Transaction::Eip4844 { common, .. } => common,
            Transaction::Eip7702 { common, .. } => common,
        }
    }

    /// The fields shared by all encodings.
    pub fn shared(&self) -> (common: &TxCommon)
        ensures
            *common == self.common(),
    {
        match self {
            Transaction::Legacy { common, .. } => common,
            Transaction::Eip2930 { common, .. } => common,
            Transaction::Eip1559 { common, .. } => common,
            Transaction::Eip4844 { common, .. } => common,
            Transaction::Eip7702 { common, .. } => common,
        }
    }
}

} // verus!
