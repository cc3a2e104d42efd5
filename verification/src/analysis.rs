//! Normalising transactions of every encoding into one descriptor.

use vstd::prelude::*;

use crate::databases::{BscDatabase, ListQuery};
use crate::error::AppError;
use crate::model::Transaction;
use crate::primitives::{Address, B256, U256};
use crate::store::{listed, Reply, Step};

verus! {

/// One transaction of a block, reduced to the fields an analysis reads.
///
/// Either `gas_price` is set, for the encodings priced by a single gas price,
/// or `max_fee_per_gas` is, for those priced by a fee cap; never both and
/// never neither.
#[derive(Clone, Debug)]
pub struct AnalyzedTx {
    pub block_number: u64,
    pub index: u32,
    pub hash: B256,
    pub to: Option<Address>,
    pub value: U256,
    pub nonce: u64,
    pub gas_limit: u64,
    pub gas_price: Option<U256>,
    pub max_fee_per_gas: Option<U256>,
    pub max_priority_fee_per_gas: Option<U256>,
    pub input_size: usize,
    pub tx_type: &'static str,
}

/// The name of a transaction's encoding.
pub open spec fn variant_tag(tx: Transaction) -> &'static str {
    match tx {
        Transaction::Legacy { .. } => "Legacy",
        Transaction::Eip2930 { .. } => "Eip2930",
        Transaction::Eip1559 { .. } => "Eip1559",
        Transaction::Eip4844 { .. } => "Eip4844",
        Transaction::Eip7702 { .. } => "Eip7702",
    }
}

/// The gas price of a transaction that is priced by one.
pub open spec fn gas_price_of(tx: Transaction) -> Option<u128> {
    match tx {
        Transaction::Legacy { gas_price, .. } => Some(gas_price),
        Transaction::Eip2930 { gas_price, .. } => Some(gas_price),
        _ => None,
    }
}

/// The fee cap of a transaction that is priced by one.
pub open spec fn max_fee_of(tx: Transaction) -> Option<u128> {
    match tx {
        Transaction::Eip1559 { max_fee_per_gas, .. } => Some(max_fee_per_gas),
        Transaction::Eip4844 { max_fee_per_gas, .. } => Some(max_fee_per_gas),
        Transaction::Eip7702 { max_fee_per_gas, .. } => Some(max_fee_per_gas),
        _ => None,
    }
}

/// The priority fee cap of a transaction, where its encoding has one and the
/// transaction carries it.
pub open spec fn max_priority_fee_of(tx: Transaction) -> Option<u128> {
    match tx {
        Transaction::Eip1559 { max_priority_fee_per_gas, .. } => max_priority_fee_per_gas,
        Transaction::Eip4844 { max_priority_fee_per_gas, .. } => max_priority_fee_per_gas,
        Transaction::Eip7702 { max_priority_fee_per_gas, .. } => max_priority_fee_per_gas,
        _ => None,
    }
}

/// A fee as a 256-bit number.
pub open spec fn widen(fee: Option<u128>) -> Option<U256> {
    match fee {
        Some(amount) => Some(U256 { hi: 0, lo: amount }),
        None => None,
    }
}

impl AnalyzedTx {
    /// Exactly one of the two pricing schemes is filled in.
    pub open spec fn wf(self) -> bool {
        ||| self.gas_price is Some && self.max_fee_per_gas is None
            && self.max_priority_fee_per_gas is None
        ||| self.gas_price is None && self.max_fee_per_gas is Some
    }

    /// Whether this is the descriptor of `tx` standing at `position` in block
    /// `block_number`. The index is the position, counted in 32 bits.
    pub open spec fn describes(self, block_number: u64, position: int, tx: Transaction) -> bool {
        &&& self.block_number == block_number
        &&& self.index == position % 0x1_0000_0000
        &&& self.hash == tx.common().hash
        &&& self.to == tx.common().to
        &&& self.value == tx.common().value
        &&& self.nonce == tx.common().nonce
        &&& self.gas_limit == tx.common().gas_limit
        &&& self.gas_price == widen(gas_price_of(tx))
        &&& self.max_fee_per_gas == widen(max_fee_of(tx))
        &&& self.max_priority_fee_per_gas == widen(max_priority_fee_of(tx))
        &&& self.input_size == tx.common().input@.len()
        &&& self.tx_type@ == variant_tag(tx)@
    }

    /// Whether the transaction creates a contract: it has no destination.
    pub fn is_contract_creation(&self) -> (creation: bool)
        ensures
            creation == (self.to is None),
    {
        self.to.is_none()
    }
}

fn widen_fee(fee: Option<u128>) -> (wide: Option<U256>)
    ensures
        wide == widen(fee),
{
    match fee {
        Some(amount) => Some(U256::from_u128(amount)),
        None => None,
    }
}

/// The descriptor of the transaction at `position` of block `block_number`.
pub fn analyze_tx(block_number: u64, position: usize, tx: &Transaction) -> (descriptor: AnalyzedTx)
    ensures
        descriptor.describes(block_number, position as int, *tx),
        descriptor.wf(),
{
    let common = tx.shared();
    let wide: u64 = position as u64;
    let index: u32 = (wide % 0x1_0000_0000) as u32;
    let (gas_price, max_fee_per_gas, max_priority_fee_per_gas, tx_type) = match tx {
        Transaction::Legacy { gas_price, .. } => (Some(*gas_price), None, None, "Legacy"),
        Transaction::Eip2930 { gas_price, .. } => (Some(*gas_price), None, None, "Eip2930"),
        Transaction::Eip1559 { max_fee_per_gas, max_priority_fee_per_gas, .. } => (
            None,
            Some(*max_fee_per_gas),
            *max_priority_fee_per_gas,
            "Eip1559",
        ),
        Transaction::Eip4844 { max_fee_per_gas, max_priority_fee_per_gas, .. } => (
            None,
            Some(*max_fee_per_gas),
            *max_priority_fee_per_gas,
            "Eip4844",
        ),
        Transaction::Eip7702 { max_fee_per_gas, max_priority_fee_per_gas, .. } => (
            None,
            Some(*max_fee_per_gas),
            *max_priority_fee_per_gas,
            "Eip7702",
        ),
    };
    AnalyzedTx {
        block_number,
        index,
        hash: common.hash,
        to: common.to,
        value: common.value,
        nonce: common.nonce,
        gas_limit: common.gas_limit,
        gas_price: widen_fee(gas_price),
        max_fee_per_gas: widen_fee(max_fee_per_gas),
        max_priority_fee_per_gas: widen_fee(max_priority_fee_per_gas),
        input_size: common.input.len(),
        tx_type,
    }
}

/// The descriptors of the transactions of block `block_number`, one for each
/// and in the same order, each stamped with its position.
pub fn analyze_txs(block_number: u64, txs: Vec<Transaction>) -> (descriptors: Vec<AnalyzedTx>)
    ensures
        descriptors@.len() == txs@.len(),
        forall|i: int|
            0 <= i < txs@.len() ==> (#[trigger] descriptors@[i]).describes(
                block_number,
                i,
                txs@[i],
            ),
        forall|i: int| 0 <= i < txs@.len() ==> (#[trigger] descriptors@[i]).wf(),
{
    let mut descriptors: Vec<AnalyzedTx> = Vec::new();
    let mut position: usize = 0;
    while position < txs.len()
        invariant
            position <= txs@.len(),
            descriptors@.len() == position,
            forall|i: int|
                0 <= i < position ==> (#[trigger] descriptors@[i]).describes(
                    block_number,
                    i,
                    txs@[i],
                ),
            forall|i: int| 0 <= i < position ==> (#[trigger] descriptors@[i]).wf(),
        decreases txs@.len() - position,
    {
        let descriptor = analyze_tx(block_number, position, &txs[position]);
        descriptors.push(descriptor);
        position += 1;
    }
    descriptors
}

/// Whether `descriptors` are the descriptors of the transactions `txs` of
/// block `block_number`: one for each, in the same order, each stamped with
/// its position.
pub open spec fn describes_all(
    descriptors: Seq<AnalyzedTx>,
    block_number: u64,
    txs: Seq<Transaction>,
) -> bool {
    &&& descriptors.len() == txs.len()
    &&& forall|i: int|
        0 <= i < txs.len() ==> (#[trigger] descriptors[i]).describes(block_number, i, txs[i])
    &&& forall|i: int| 0 <= i < txs.len() ==> (#[trigger] descriptors[i]).wf()
}

/// The analysis of a block between two reads: the transactions query that
/// it rests on.
#[derive(Clone, Copy, Debug, PartialEq, Eq)]
pub struct BlockAnalysis {
    pub block_number: u64,
    pub query: ListQuery,
}

/// One move of the analysis of a block.
pub type BlockAnalysisStep = Step<BlockAnalysis, Result<Vec<AnalyzedTx>, AppError>>;

impl BlockAnalysis {
    /// Whether `step` is what the analysis of block `block_number` makes of
    /// the move `query` of its transactions query: the same request, the
    /// same failure, and in place of the transactions their descriptors.
    pub open spec fn follows(
        block_number: u64,
        query: Step<ListQuery, Result<Seq<Transaction>, AppError>>,
        step: BlockAnalysisStep,
    ) -> bool {
        match query {
            Step::Ask(request, next) => step == Step::<
                BlockAnalysis,
                Result<Vec<AnalyzedTx>, AppError>,
            >::Ask(request, BlockAnalysis { block_number, query: next }),
            Step::Done(Err(error)) => step == Step::<
                BlockAnalysis,
                Result<Vec<AnalyzedTx>, AppError>,
            >::Done(Err(error)),
            Step::Done(Ok(txs)) => step matches Step::Done(Ok(descriptors)) && describes_all(
                descriptors@,
                block_number,
                txs,
            ),
        }
    }

    fn lift(
        block_number: u64,
        query: Step<ListQuery, Result<Vec<Transaction>, AppError>>,
    ) -> (step: BlockAnalysisStep)
        ensures
            Self::follows(block_number, listed(query), step),
    {
        match query {
            Step::Ask(request, next) => Step::Ask(
                request,
                BlockAnalysis { block_number, query: next },
            ),
            Step::Done(Err(error)) => Step::Done(Err(error)),
            Step::Done(Ok(txs)) => Step::Done(Ok(analyze_txs(block_number, txs))),
        }
    }

    /// Takes the reply to the read that was asked for and says what comes
    /// next.
    pub fn feed(self, reply: Reply) -> (step: BlockAnalysisStep)
        ensures
            Self::follows(self.block_number, self.query.fed_transactions(reply), step),
    {
        Self::lift(self.block_number, self.query.feed_transactions(reply))
    }
}

/// The descriptors of the transactions of block `block_number` of an opened
/// store. Begins with the transactions query; [`BlockAnalysis::feed`] goes
/// on.
pub fn analyze_block(db: &BscDatabase, block_number: u64) -> (step: BlockAnalysisStep)
    ensures
        BlockAnalysis::follows(block_number, db.listing::<Transaction>(block_number), step),
{
    BlockAnalysis::lift(block_number, db.query_block_order_transactions(block_number))
}

/// The destination of each transaction, in order; `None` for one that
/// creates a contract.
pub open spec fn destinations(txs: Seq<Transaction>) -> Seq<Option<Address>> {
    Seq::new(txs.len(), |i: int| txs[i].common().to)
}

/// The destination of each of `txs`, in order.
pub fn transaction_destinations(txs: &Vec<Transaction>) -> (tos: Vec<Option<Address>>)
    ensures
        tos@ == destinations(txs@),
{
    let mut tos: Vec<Option<Address>> = Vec::new();
    let mut i: usize = 0;
    while i < txs.len()
        invariant
            i <= txs@.len(),
            tos@.len() == i,
            forall|j: int| 0 <= j < i ==> tos@[j] == txs@[j].common().to,
        decreases txs@.len() - i,
    {
        tos.push(txs[i].shared().to);
        i += 1;
    }
    assert(tos@ =~= destinations(txs@));
    tos
}

/// The listing of a block's destinations between two reads: the
/// transactions query that it rests on.
#[derive(Clone, Copy, Debug, PartialEq, Eq)]
pub struct DestinationScan {
    pub query: ListQuery,
}

/// One move of the listing of a block's destinations.
pub type DestinationScanStep = Step<DestinationScan, Result<Vec<Option<Address>>, AppError>>;

impl DestinationScan {
    /// What the listing makes of the move `query` of its transactions query:
    /// the same request, the same failure, and in place of the transactions
    /// their destinations.
    pub open spec fn over(query: Step<ListQuery, Result<Seq<Transaction>, AppError>>) -> Step<
        DestinationScan,
        Result<Seq<Option<Address>>, AppError>,
    > {
        match query {
            Step::Ask(request, next) => Step::Ask(request, DestinationScan { query: next }),
            Step::Done(Err(error)) => Step::Done(Err(error)),
            Step::Done(Ok(txs)) => Step::Done(Ok(destinations(txs))),
        }
    }

    fn lift(query: Step<ListQuery, Result<Vec<Transaction>, AppError>>) -> (step:
        DestinationScanStep)
        ensures
            listed(step) == Self::over(listed(query)),
    {
        match query {
            Step::Ask(request, next) => Step::Ask(request, DestinationScan { query: next }),
            Step::Done(Err(error)) => Step::Done(Err(error)),
            Step::Done(Ok(txs)) => Step::Done(Ok(transaction_destinations(&txs))),
        }
    }

    /// Takes the reply to the read that was asked for and says what comes
    /// next.
    pub fn feed(self, reply: Reply) -> (step: DestinationScanStep)
        ensures
            listed(step) == Self::over(self.query.fed_transactions(reply)),
    {
        Self::lift(self.query.feed_transactions(reply))
    }
}

/// The destination of each transaction of block `block_number`, in block
/// order, `None` for a contract creation. Begins with the transactions
/// query; [`DestinationScan::feed`] goes on.
pub fn analyze_block_transactions_with_to(db: &BscDatabase, block_number: u64) -> (step:
    DestinationScanStep)
    ensures
        listed(step) == DestinationScan::over(db.listing::<Transaction>(block_number)),
{
    DestinationScan::lift(db.query_block_order_transactions(block_number))
}

} // verus!
