//! Telling the transactions that create a contract from those that call.

use vstd::prelude::*;

use crate::databases::{BscDatabase, ListQuery};
use crate::error::AppError;
use crate::model::Transaction;
use crate::store::{listed, Reply, Step};

verus! {

/// For each transaction, whether it creates a contract: whether it has no
/// destination.
pub open spec fn creation_flags(txs: Seq<Transaction>) -> Seq<bool> {
    Seq::new(txs.len(), |i: int| txs[i].common().to is None)
}

impl Transaction {
    /// Whether the transaction creates a contract: it has no destination.
    pub fn is_contract_creation(&self) -> (creation: bool)
        ensures
            creation == (self.common().to is None),
    {
        self.shared().to.is_none()
    }
}

/// For each of `txs`, in order, whether it creates a contract.
pub fn contract_creations(txs: &Vec<Transaction>) -> (flags: Vec<bool>)
    ensures
        flags@ == creation_flags(txs@),
{
    let mut flags: Vec<bool> = Vec::new();
    let mut i: usize = 0;
    while i < txs.len()
        invariant
            i <= txs@.len(),
            flags@.len() == i,
            forall|j: int| 0 <= j < i ==> flags@[j] == (txs@[j].common().to is None),
        decreases txs@.len() - i,
    {
        flags.push(txs[i].is_contract_creation());
        i += 1;
    }
    assert(flags@ =~= creation_flags(txs@));
    flags
}

/// The word under which a transaction is listed: `CREATE` for one that
/// creates a contract, `CALL` for any other.
pub fn creation_label(is_create: bool) -> (label: &'static str)
    ensures
        label@ == if is_create {
            "CREATE"@
        } else {
            "CALL"@
        },
{
    if is_create {
        "CREATE"
    } else {
        "CALL"
    }
}

/// The scan of a block for contract creations between two reads: the
/// transactions query that it rests on.
#[derive(Clone, Copy, Debug, PartialEq, Eq)]
pub struct CreationScan {
    pub query: ListQuery,
}

/// One move of the scan for contract creations.
pub type CreationScanStep = Step<CreationScan, Result<Vec<bool>, AppError>>;

impl CreationScan {
    /// What the scan makes of the move `query` of its transactions query:
    /// the same request, the same failure, and in place of the transactions
    /// their flags.
    pub open spec fn over(query: Step<ListQuery, Result<Seq<Transaction>, AppError>>) -> Step<
        CreationScan,
        Result<Seq<bool>, AppError>,
    > {
        match query {
            Step::Ask(request, next) => Step::Ask(request, CreationScan { query: next }),
            Step::Done(Err(error)) => Step::Done(Err(error)),
            Step::Done(Ok(txs)) => Step::Done(Ok(creation_flags(txs))),
        }
    }

    fn lift(query: Step<ListQuery, Result<Vec<Transaction>, AppError>>) -> (step: CreationScanStep)
        ensures
            listed(step) == Self::over(listed(query)),
    {
        match query {
            Step::Ask(request, next) => Step::Ask(request, CreationScan { query: next }),
            Step::Done(Err(error)) => Step::Done(Err(error)),
            Step::Done(Ok(txs)) => Step::Done(Ok(contract_creations(&txs))),
        }
    }

    /// Takes the reply to the read that was asked for and says what comes
    /// next.
    pub fn feed(self, reply: Reply) -> (step: CreationScanStep)
        ensures
            listed(step) == Self::over(self.query.fed_transactions(reply)),
    {
        Self::lift(self.query.feed_transactions(reply))
    }
}

/// For each transaction of block `block_number`, in block order, whether it
/// creates a contract. Begins with the transactions query;
/// [`CreationScan::feed`] goes on.
pub fn scan_block_contract_creations(db: &BscDatabase, block_number: u64) -> (step:
    CreationScanStep)
    ensures
        listed(step) == CreationScan::over(db.listing::<Transaction>(block_number)),
{
    CreationScan::lift(db.query_block_order_transactions(block_number))
}

} // verus!
