//! A walk through the common reads of a store for one block: header, body
//! indices, transactions, receipts, a receipt by transaction hash, and the
//! account and first storage slot of one address in the latest state.

use vstd::prelude::*;

use crate::error::AppError;
use crate::model::{AccountState, BlockBodyIndices, BlockHeader, ReceiptSummary, Transaction};
use crate::primitives::{decode_hex, Address, B256, U256};
use crate::store::{drive, lemma_drive_more_fuel, Outcome, Reply, Request, Step};

verus! {

/// The first transaction of a block, as far as the walk shows it.
#[derive(Clone, Copy, Debug, PartialEq, Eq)]
pub struct TxBrief {
    pub hash: B256,
    pub to: Option<Address>,
}

/// The length of a list and its first item.
#[derive(Clone, Copy, Debug, PartialEq, Eq)]
pub struct ListBrief<T> {
    pub count: usize,
    pub first: Option<T>,
}

/// What the walk found.
#[derive(Clone, Debug, PartialEq, Eq)]
pub struct DemoReport {
    pub latest: u64,
    pub header: Option<BlockHeader>,
    pub indices: Option<BlockBodyIndices>,
    pub transactions: Outcome<ListBrief<TxBrief>>,
    pub receipts: Outcome<ListBrief<ReceiptSummary>>,
    /// The receipt looked up by hash; `None` where no hash was given.
    pub receipt_by_hash: Option<Outcome<ReceiptSummary>>,
    pub account: Outcome<AccountState>,
    pub storage: Outcome<U256>,
}

/// The read that the walk waits for.
#[derive(Clone, Copy, Debug, PartialEq, Eq)]
pub enum DemoStage {
    Latest,
    Header,
    Indices,
    Transactions,
    Receipts,
    TransactionId { tx_hash: B256 },
    Receipt { number: u64 },
    Snapshot,
    Account,
    Storage,
}

/// The walk between two reads.
#[derive(Clone, Debug, PartialEq, Eq)]
pub struct Demo {
    pub block_number: u64,
    pub tx_hash: Option<B256>,
    /// The address whose account and first storage slot are read.
    pub target: Address,
    pub stage: DemoStage,
    pub report: DemoReport,
}

/// One move of the walk.
pub type DemoStep = Step<Demo, Result<DemoReport, AppError>>;

/// The length and the first item of a list of transactions.
pub open spec fn transactions_brief(list: Seq<Transaction>) -> ListBrief<TxBrief> {
    ListBrief {
        count: list.len() as usize,
        first: if list.len() == 0 {
            None
        } else {
            Some(TxBrief { hash: list[0].common().hash, to: list[0].common().to })
        },
    }
}

/// The length and the first item of a list of receipts.
pub open spec fn receipts_brief(list: Seq<ReceiptSummary>) -> ListBrief<ReceiptSummary> {
    ListBrief {
        count: list.len() as usize,
        first: if list.len() == 0 {
            None
        } else {
            Some(list[0])
        },
    }
}

/// The report before anything was read.
pub open spec fn blank_report() -> DemoReport {
    DemoReport {
        latest: 0,
        header: None,
        indices: None,
        transactions: Outcome::NotFound,
        receipts: Outcome::NotFound,
        receipt_by_hash: None,
        account: Outcome::NotFound,
        storage: Outcome::NotFound,
    }
}

impl Demo {
    /// The walk at `stage`, waiting for the reply to `request`.
    pub open spec fn ask(self, request: Request, stage: DemoStage, report: DemoReport) -> DemoStep {
        Step::Ask(request, Demo { stage, report, ..self })
    }

    /// The walk once the lists are read: the receipt by hash comes next
    /// where a hash was given, else the state.
    pub open spec fn after_lists(self, report: DemoReport) -> DemoStep {
        match self.tx_hash {
            Some(tx_hash) => self.ask(
                Request::TransactionId(tx_hash),
                DemoStage::TransactionId { tx_hash },
                report,
            ),
            None => self.ask(Request::LatestState, DemoStage::Snapshot, report),
        }
    }

    /// The move that follows `reply`. The best block number, the header, the
    /// body indices and the state snapshot must be readable: a failure of
    /// one of these reads ends the walk. Any other read that fails is noted
    /// in the report and the walk goes on.
    pub open spec fn fed(self, reply: Reply) -> DemoStep {
        let block = self.block_number;
        let report = self.report;
        match self.stage {
            DemoStage::Latest => match reply {
                Reply::BlockNumber(latest) => self.ask(
                    Request::Header(block),
                    DemoStage::Header,
                    DemoReport { latest, ..report },
                ),
                _ => Step::Done(Err(reply.failure(Request::BestBlockNumber))),
            },
            DemoStage::Header => match reply {
                Reply::Header(header) => self.ask(
                    Request::BodyIndices(block),
                    DemoStage::Indices,
                    DemoReport { header: Some(header), ..report },
                ),
                Reply::NotFound => self.ask(Request::BodyIndices(block), DemoStage::Indices, report),
                _ => Step::Done(Err(reply.failure(Request::Header(block)))),
            },
            DemoStage::Indices => match reply {
                Reply::BodyIndices(indices) => self.ask(
                    Request::Transactions(block),
                    DemoStage::Transactions,
                    DemoReport { indices: Some(indices), ..report },
                ),
                Reply::NotFound => self.ask(
                    Request::Transactions(block),
                    DemoStage::Transactions,
                    report,
                ),
                _ => Step::Done(Err(reply.failure(Request::BodyIndices(block)))),
            },
            DemoStage::Transactions => self.ask(
                Request::Receipts(block),
                DemoStage::Receipts,
                DemoReport {
                    transactions: match reply {
                        Reply::Transactions(list) => Outcome::Found(transactions_brief(list@)),
                        Reply::NotFound => Outcome::NotFound,
                        _ => Outcome::Failed(reply.failure(Request::Transactions(block))),
                    },
                    ..report
                },
            ),
            DemoStage::Receipts => self.after_lists(
                DemoReport {
                    receipts: match reply {
                        Reply::Receipts(list) => Outcome::Found(receipts_brief(list@)),
                        Reply::NotFound => Outcome::NotFound,
                        _ => Outcome::Failed(reply.failure(Request::Receipts(block))),
                    },
                    ..report
                },
            ),
            DemoStage::TransactionId { tx_hash } => match reply {
                Reply::TransactionId(number) => self.ask(
                    Request::Receipt(number),
                    DemoStage::Receipt { number },
                    report,
                ),
                Reply::NotFound => self.ask(
                    Request::LatestState,
                    DemoStage::Snapshot,
                    DemoReport { receipt_by_hash: Some(Outcome::NotFound), ..report },
                ),
                _ => self.ask(
                    Request::LatestState,
                    DemoStage::Snapshot,
                    DemoReport {
                        receipt_by_hash: Some(
                            Outcome::Failed(reply.failure(Request::TransactionId(tx_hash))),
                        ),
                        ..report
                    },
                ),
            },
            DemoStage::Receipt { number } => self.ask(
                Request::LatestState,
                DemoStage::Snapshot,
                DemoReport {
                    receipt_by_hash: Some(
                        match reply {
                            Reply::Receipt(receipt) => Outcome::Found(receipt),
                            Reply::NotFound => Outcome::NotFound,
                            _ => Outcome::Failed(reply.failure(Request::Receipt(number))),
                        },
                    ),
                    ..report
                },
            ),
            DemoStage::Snapshot => match reply {
                Reply::State => self.ask(Request::Account(self.target), DemoStage::Account, report),
                _ => Step::Done(Err(reply.failure(Request::LatestState))),
            },
            DemoStage::Account => self.ask(
                Request::Storage(self.target, U256 { hi: 0, lo: 0 }),
                DemoStage::Storage,
                DemoReport {
                    account: match reply {
                        Reply::Account(account) => Outcome::Found(account),
                        Reply::NotFound => Outcome::NotFound,
                        _ => Outcome::Failed(reply.failure(Request::Account(self.target))),
                    },
                    ..report
                },
            ),
            DemoStage::Storage => Step::Done(
                Ok(
                    DemoReport {
                        storage: match reply {
                            Reply::Storage(value) => Outcome::Found(value),
                            Reply::NotFound => Outcome::NotFound,
                            _ => Outcome::Failed(
                                reply.failure(
                                    Request::Storage(self.target, U256 { hi: 0, lo: 0 }),
                                ),
                            ),
                        },
                        ..report
                    },
                ),
            ),
        }
    }

    fn go(self, request: Request, stage: DemoStage) -> (step: DemoStep)
        ensures
            step == self.ask(request, stage, self.report),
    {
        let mut state = self;
        state.stage = stage;
        Step::Ask(request, state)
    }

    fn brief_transactions(list: &Vec<Transaction>) -> (brief: ListBrief<TxBrief>)
        ensures
            brief == transactions_brief(list@),
    {
        let first = if list.len() == 0 {
            None
        } else {
            let common = list[0].shared();
            Some(TxBrief { hash: common.hash, to: common.to })
        };
        ListBrief { count: list.len(), first }
    }

    fn brief_receipts(list: &Vec<ReceiptSummary>) -> (brief: ListBrief<ReceiptSummary>)
        ensures
            brief == receipts_brief(list@),
    {
        let first = if list.len() == 0 {
            None
        } else {
            Some(list[0])
        };
        ListBrief { count: list.len(), first }
    }

    /// Takes the reply to the read that was asked for and says what comes
    /// next.
    pub fn feed(self, reply: Reply) -> (step: DemoStep)
        ensures
            step == self.fed(reply),
    {
        let block = self.block_number;
        let target = self.target;
        let mut state = self;
        match state.stage {
            DemoStage::Latest => match reply {
                Reply::BlockNumber(latest) => {
                    state.report.latest = latest;
                    state.go(Request::Header(block), DemoStage::Header)
                },
                other => Step::Done(Err(other.into_failure(Request::BestBlockNumber))),
            },
            DemoStage::Header => match reply {
                Reply::Header(header) => {
                    state.report.header = Some(header);
                    state.go(Request::BodyIndices(block), DemoStage::Indices)
                },
                Reply::NotFound => state.go(Request::BodyIndices(block), DemoStage::Indices),
                other => Step::Done(Err(other.into_failure(Request::Header(block)))),
            },
            DemoStage::Indices => match reply {
                Reply::BodyIndices(indices) => {
                    state.report.indices = Some(indices);
                    state.go(Request::Transactions(block), DemoStage::Transactions)
                },
                Reply::NotFound => state.go(Request::Transactions(block), DemoStage::Transactions),
                other => Step::Done(Err(other.into_failure(Request::BodyIndices(block)))),
            },
            DemoStage::Transactions => {
                state.report.transactions = match reply {
                    Reply::Transactions(list) => Outcome::Found(Self::brief_transactions(&list)),
                    Reply::NotFound => Outcome::NotFound,
                    other => Outcome::Failed(other.into_failure(Request::Transactions(block))),
                };
                state.go(Request::Receipts(block), DemoStage::Receipts)
            },
            DemoStage::Receipts => {
                state.report.receipts = match reply {
                    Reply::Receipts(list) => Outcome::Found(Self::brief_receipts(&list)),
                    Reply::NotFound => Outcome::NotFound,
                    other => Outcome::Failed(other.into_failure(Request::Receipts(block))),
                };
                match state.tx_hash {
                    Some(tx_hash) => state.go(
                        Request::TransactionId(tx_hash),
                        DemoStage::TransactionId { tx_hash },
                    ),
                    None => state.go(Request::LatestState, DemoStage::Snapshot),
                }
            },
            DemoStage::TransactionId { tx_hash } => match reply {
                Reply::TransactionId(number) => state.go(
                    Request::Receipt(number),
                    DemoStage::Receipt { number },
                ),
                Reply::NotFound => {
                    state.report.receipt_by_hash = Some(Outcome::NotFound);
                    state.go(Request::LatestState, DemoStage::Snapshot)
                },
                other => {
                    state.report.receipt_by_hash = Some(
                        Outcome::Failed(other.into_failure(Request::TransactionId(tx_hash))),
                    );
                    state.go(Request::LatestState, DemoStage::Snapshot)
                },
            },
            DemoStage::Receipt { number } => {
                state.report.receipt_by_hash = Some(
                    match reply {
                        Reply::Receipt(receipt) => Outcome::Found(receipt),
                        Reply::NotFound => Outcome::NotFound,
                        other => Outcome::Failed(other.into_failure(Request::Receipt(number))),
                    },
                );
                state.go(Request::LatestState, DemoStage::Snapshot)
            },
            DemoStage::Snapshot => match reply {
                Reply::State => state.go(Request::Account(target), DemoStage::Account),
                other => Step::Done(Err(other.into_failure(Request::LatestState))),
            },
            DemoStage::Account => {
                state.report.account = match reply {
                    Reply::Account(account) => Outcome::Found(account),
                    Reply::NotFound => Outcome::NotFound,
                    other => Outcome::Failed(other.into_failure(Request::Account(target))),
                };
                state.go(Request::Storage(target, U256::from_u64(0)), DemoStage::Storage)
            },
            DemoStage::Storage => {
                state.report.storage = match reply {
                    Reply::Storage(value) => Outcome::Found(value),
                    Reply::NotFound => Outcome::NotFound,
                    other => Outcome::Failed(
                        other.into_failure(Request::Storage(target, U256::from_u64(0))),
                    ),
                };
                Step::Done(Ok(state.report))
            },
        }
    }
}

impl Demo {
    /// `fed` as a function value, for [`drive`].
    pub open spec fn resume() -> spec_fn(Demo, Reply) -> DemoStep {
        |state: Demo, reply: Reply| state.fed(reply)
    }
}

/// What a read of the walk came back with, where its failure is kept: the
/// data that `found` takes from the reply, or that there was none, or the
/// failure.
pub open spec fn outcome_of<T>(
    reply: Reply,
    request: Request,
    found: spec_fn(Reply) -> Option<T>,
) -> Outcome<T> {
    match found(reply) {
        Some(data) => Outcome::Found(data),
        None => if reply is NotFound {
            Outcome::NotFound
        } else {
            Outcome::Failed(reply.failure(request))
        },
    }
}

/// What the walk reports of the receipt of `tx_hash` for a store.
pub open spec fn receipt_outcome(tx_hash: B256, store: spec_fn(Request) -> Reply) -> Outcome<
    ReceiptSummary,
> {
    match store(Request::TransactionId(tx_hash)) {
        Reply::TransactionId(number) => match store(Request::Receipt(number)) {
            Reply::Receipt(receipt) => Outcome::Found(receipt),
            Reply::NotFound => Outcome::NotFound,
            other => Outcome::Failed(other.failure(Request::Receipt(number))),
        },
        Reply::NotFound => Outcome::NotFound,
        other => Outcome::Failed(other.failure(Request::TransactionId(tx_hash))),
    }
}

/// What the walk for block `block` reports for a store where every read
/// that it cannot do without is answered.
pub open spec fn walk_report(
    block: u64,
    tx_hash: Option<B256>,
    target: Address,
    store: spec_fn(Request) -> Reply,
) -> DemoReport {
    DemoReport {
        latest: match store(Request::BestBlockNumber) {
            Reply::BlockNumber(latest) => latest,
            _ => 0,
        },
        header: match store(Request::Header(block)) {
            Reply::Header(header) => Some(header),
            _ => None,
        },
        indices: match store(Request::BodyIndices(block)) {
            Reply::BodyIndices(indices) => Some(indices),
            _ => None,
        },
        transactions: outcome_of(
            store(Request::Transactions(block)),
            Request::Transactions(block),
            |reply: Reply|
                match reply {
                    Reply::Transactions(list) => Some(transactions_brief(list@)),
                    _ => None,
                },
        ),
        receipts: outcome_of(
            store(Request::Receipts(block)),
            Request::Receipts(block),
            |reply: Reply|
                match reply {
                    Reply::Receipts(list) => Some(receipts_brief(list@)),
                    _ => None,
                },
        ),
        receipt_by_hash: match tx_hash {
            Some(hash) => Some(receipt_outcome(hash, store)),
            None => None,
        },
        account: outcome_of(
            store(Request::Account(target)),
            Request::Account(target),
            |reply: Reply|
                match reply {
                    Reply::Account(account) => Some(account),
                    _ => None,
                },
        ),
        storage: outcome_of(
            store(Request::Storage(target, U256 { hi: 0, lo: 0 })),
            Request::Storage(target, U256 { hi: 0, lo: 0 }),
            |reply: Reply|
                match reply {
                    Reply::Storage(value) => Some(value),
                    _ => None,
                },
        ),
    }
}

/// What the walk returns for a store: its report, or the failure of the
/// first read that it cannot do without: the best block number, the header,
/// the body indices, the state snapshot. A header or body indices that are
/// not there are no failure.
pub open spec fn walk_answer(
    block: u64,
    tx_hash: Option<B256>,
    target: Address,
    store: spec_fn(Request) -> Reply,
) -> Result<DemoReport, AppError> {
    let best = store(Request::BestBlockNumber);
    let header = store(Request::Header(block));
    let indices = store(Request::BodyIndices(block));
    let snapshot = store(Request::LatestState);
    if !(best is BlockNumber) {
        Err(best.failure(Request::BestBlockNumber))
    } else if !(header is Header || header is NotFound) {
        Err(header.failure(Request::Header(block)))
    } else if !(indices is BodyIndices || indices is NotFound) {
        Err(indices.failure(Request::BodyIndices(block)))
    } else if !(snapshot is State) {
        Err(snapshot.failure(Request::LatestState))
    } else {
        Ok(walk_report(block, tx_hash, target, store))
    }
}

/// What the walk ends with from the state snapshot on, with `report` what
/// it found before.
pub open spec fn walk_end(
    report: DemoReport,
    target: Address,
    store: spec_fn(Request) -> Reply,
) -> Result<DemoReport, AppError> {
    if store(Request::LatestState) is State {
        Ok(
            DemoReport {
                account: walk_report(0, None, target, store).account,
                storage: walk_report(0, None, target, store).storage,
                ..report
            },
        )
    } else {
        Err(store(Request::LatestState).failure(Request::LatestState))
    }
}

/// The walk from the state snapshot on.
pub proof fn lemma_walk_state(state: Demo, store: spec_fn(Request) -> Reply)
    requires
        state.stage == DemoStage::Snapshot,
    ensures
        drive(Step::Ask(Request::LatestState, state), Demo::resume(), store, 3) == Some(
            walk_end(state.report, state.target, store),
        ),
{
    reveal_with_fuel(drive, 4);
}

/// The walk from the receipt by hash on.
pub proof fn lemma_walk_receipt(state: Demo, report: DemoReport, store: spec_fn(Request) -> Reply)
    ensures
        drive(state.after_lists(report), Demo::resume(), store, 5) == Some(
            walk_end(
                DemoReport {
                    receipt_by_hash: match state.tx_hash {
                        Some(hash) => Some(receipt_outcome(hash, store)),
                        None => report.receipt_by_hash,
                    },
                    ..report
                },
                state.target,
                store,
            ),
        ),
{
    let resume = Demo::resume();
    match state.tx_hash {
        None => {
            let waiting = Demo { stage: DemoStage::Snapshot, report, ..state };
            lemma_walk_state(waiting, store);
            lemma_drive_more_fuel(Step::Ask(Request::LatestState, waiting), resume, store, 3, 5);
        },
        Some(tx_hash) => {
            let asking = Demo { stage: DemoStage::TransactionId { tx_hash }, report, ..state };
            let reply = store(Request::TransactionId(tx_hash));
            assert(drive(state.after_lists(report), resume, store, 5) == drive(
                asking.fed(reply),
                resume,
                store,
                4,
            ));
            match reply {
                Reply::TransactionId(number) => {
                    let reading = Demo { stage: DemoStage::Receipt { number }, report, ..state };
                    let found = DemoReport {
                        receipt_by_hash: Some(receipt_outcome(tx_hash, store)),
                        ..report
                    };
                    let waiting = Demo { stage: DemoStage::Snapshot, report: found, ..state };
                    assert(drive(asking.fed(reply), resume, store, 4) == drive(
                        reading.fed(store(Request::Receipt(number))),
                        resume,
                        store,
                        3,
                    ));
                    assert(reading.fed(store(Request::Receipt(number))) == Step::<
                        Demo,
                        Result<DemoReport, AppError>,
                    >::Ask(Request::LatestState, waiting));
                    lemma_walk_state(waiting, store);
                },
                _ => {
                    let found = DemoReport {
                        receipt_by_hash: Some(receipt_outcome(tx_hash, store)),
                        ..report
                    };
                    let waiting = Demo { stage: DemoStage::Snapshot, report: found, ..state };
                    assert(asking.fed(reply) == Step::<Demo, Result<DemoReport, AppError>>::Ask(
                        Request::LatestState,
                        waiting,
                    ));
                    lemma_walk_state(waiting, store);
                    lemma_drive_more_fuel(
                        Step::Ask(Request::LatestState, waiting),
                        resume,
                        store,
                        3,
                        4,
                    );
                },
            }
        },
    }
}

/// The walk from the transactions on.
pub proof fn lemma_walk_lists(state: Demo, store: spec_fn(Request) -> Reply)
    requires
        state.stage == DemoStage::Transactions,
    ensures
        drive(
            Step::Ask(Request::Transactions(state.block_number), state),
            Demo::resume(),
            store,
            7,
        ) == Some(
            walk_end(
                DemoReport {
                    transactions: walk_report(
                        state.block_number,
                        None,
                        state.target,
                        store,
                    ).transactions,
                    receipts: walk_report(state.block_number, None, state.target, store).receipts,
                    receipt_by_hash: match state.tx_hash {
                        Some(hash) => Some(receipt_outcome(hash, store)),
                        None => state.report.receipt_by_hash,
                    },
                    ..state.report
                },
                state.target,
                store,
            ),
        ),
{
    let resume = Demo::resume();
    let block = state.block_number;
    let first = state.fed(store(Request::Transactions(block)));
    assert(drive(Step::Ask(Request::Transactions(block), state), resume, store, 7) == drive(
        first,
        resume,
        store,
        6,
    ));
    let listed = DemoReport {
        transactions: walk_report(block, None, state.target, store).transactions,
        ..state.report
    };
    let reading = Demo { stage: DemoStage::Receipts, report: listed, ..state };
    assert(first == Step::<Demo, Result<DemoReport, AppError>>::Ask(
        Request::Receipts(block),
        reading,
    ));
    let both = DemoReport {
        receipts: walk_report(block, None, state.target, store).receipts,
        ..listed
    };
    assert(reading.fed(store(Request::Receipts(block))) == reading.after_lists(both));
    assert(drive(first, resume, store, 6) == drive(
        reading.after_lists(both),
        resume,
        store,
        5,
    ));
    lemma_walk_receipt(reading, both, store);
}

/// The walk, with its reads answered by a store, ends within ten reads with
/// its answer for that store.
pub proof fn law_walk_ends_with_its_answer(
    start: Demo,
    store: spec_fn(Request) -> Reply,
    fuel: nat,
)
    requires
        start.stage == DemoStage::Latest,
        start.report == blank_report(),
        fuel >= 10,
    ensures
        drive(Step::Ask(Request::BestBlockNumber, start), Demo::resume(), store, fuel) == Some(
            walk_answer(start.block_number, start.tx_hash, start.target, store),
        ),
{
    let resume = Demo::resume();
    let block = start.block_number;
    let answer = walk_answer(block, start.tx_hash, start.target, store);
    let first: DemoStep = Step::Ask(Request::BestBlockNumber, start);
    let s1 = start.fed(store(Request::BestBlockNumber));
    assert(drive(first, resume, store, 10) == drive(s1, resume, store, 9));
    match s1 {
        Step::Ask(q1, m1) => {
            let s2 = m1.fed(store(q1));
            assert(drive(s1, resume, store, 9) == drive(s2, resume, store, 8));
            match s2 {
                Step::Ask(q2, m2) => {
                    let s3 = m2.fed(store(q2));
                    assert(drive(s2, resume, store, 8) == drive(s3, resume, store, 7));
                    match s3 {
                        Step::Ask(q3, m3) => {
                            lemma_walk_lists(m3, store);
                        },
                        Step::Done(_) => {},
                    }
                },
                Step::Done(_) => {},
            }
        },
        Step::Done(_) => {},
    }
    assert(drive(first, resume, store, 10) == Some(answer));
    lemma_drive_more_fuel(first, resume, store, 10, fuel);
}

/// Whether `step` is the first move of the walk for block `block_number`
/// and the hash `tx_hash`: the best block number is asked for, nothing is
/// found yet, and the state reads will be made for the zero address.
pub open spec fn is_walk_start(step: DemoStep, block_number: u64, tx_hash: Option<B256>) -> bool {
    step matches Step::Ask(request, state) && request == Request::BestBlockNumber && state == (
    Demo {
        block_number,
        tx_hash,
        target: state.target,
        stage: DemoStage::Latest,
        report: blank_report(),
    }) && state.target@ == Seq::new(20, |i: int| 0u8)
}

/// Begins the walk for block `block_number`, with the transaction hash to
/// look up a receipt for, if any. The account and storage reads are made
/// for the zero address. [`Demo::feed`] goes on.
pub fn demo_common(block_number: u64, tx_hash: Option<B256>) -> (step: DemoStep)
    ensures
        is_walk_start(step, block_number, tx_hash),
{
    Step::Ask(
        Request::BestBlockNumber,
        Demo {
            block_number,
            tx_hash,
            target: Address::zero(),
            stage: DemoStage::Latest,
            report: DemoReport {
                latest: 0,
                header: None,
                indices: None,
                transactions: Outcome::NotFound,
                receipts: Outcome::NotFound,
                receipt_by_hash: None,
                account: Outcome::NotFound,
                storage: Outcome::NotFound,
            },
        },
    )
}

/// Begins the walk as [`demo_common`] does. A caller that holds the chain
/// configuration reports it before it makes the first read; the reads are
/// the same.
pub fn demo_factory(block_number: u64, tx_hash: Option<B256>) -> (step: DemoStep)
    ensures
        is_walk_start(step, block_number, tx_hash),
{
    demo_common(block_number, tx_hash)
}

/// Begins the walk for block `block_number` with the transaction hash given
/// as hexadecimal text, if any. A malformed hash is rejected with the text
/// itself as the error's argument, before any read is asked for.
pub fn demo_from_text(block_number: u64, tx: Option<&str>) -> (begun: Result<DemoStep, AppError>)
    ensures
        match tx {
            None => begun matches Ok(step) && is_walk_start(step, block_number, None),
            Some(text) => match decode_hex(text@, 32) {
                None => begun matches Err(AppError::InvalidArg(input)) && input@ == text@,
                Some(bytes) => begun matches Ok(step) && exists|tx_hash: B256|
                    tx_hash@ == bytes && #[trigger] is_walk_start(
                        step,
                        block_number,
                        Some(tx_hash),
                    ),
            },
        },
{
    match tx {
        None => Ok(demo_common(block_number, None)),
        Some(text) => match B256::parse(text) {
            Ok(tx_hash) => {
                let step = demo_common(block_number, Some(tx_hash));
                assert(is_walk_start(step, block_number, Some(tx_hash)));
                Ok(step)
            },
            Err(error) => Err(error),
        },
    }
}

} // verus!
