//! The conversation between a query and the store.
//!
//! A query never touches the store. It hands out a [`Request`], the caller
//! performs the read and hands the [`Reply`] back, and so on until the query
//! is [`Step::Done`].

use vstd::prelude::*;

use crate::error::{AppError, Cause};
use crate::model::{AccountState, BlockBodyIndices, BlockHeader, ReceiptSummary, Transaction};
use crate::primitives::{Address, B256, U256};

verus! {

/// The two record categories of the archive that are scanned.
#[derive(Clone, Copy, Debug, PartialEq, Eq, Structural)]
pub enum SegmentKind {
    Transactions,
    Receipts,
}

/// One read of the store or of the archive.
#[derive(Clone, Copy, Debug, PartialEq, Eq)]
pub enum Request {
    /// The best known block number.
    BestBlockNumber,
    /// The header of a block.
    Header(u64),
    /// The body indices of a block.
    BodyIndices(u64),
    /// All transactions of a block, in block order.
    Transactions(u64),
    /// All receipts of a block, in block order.
    Receipts(u64),
    /// The record number of the transaction with this hash.
    TransactionId(B256),
    /// The receipt stored under a record number.
    Receipt(u64),
    /// A snapshot of the latest state; the state reads that follow are made
    /// against the snapshot acquired last.
    LatestState,
    /// The length of the code of an account.
    Code(Address),
    /// The balance and nonce of an account.
    Account(Address),
    /// The value of a storage slot of an account.
    Storage(Address, U256),
    /// The archive segment of one kind that holds a block.
    Segment(SegmentKind, u64),
    /// The record stored under a record number in the open segment.
    Record(SegmentKind, u64),
}

/// One record of an archive segment.
#[derive(Clone, Debug, PartialEq, Eq)]
pub enum Record {
    Transaction(Transaction),
    Receipt(ReceiptSummary),
}

/// What a read came back with.
#[derive(Clone, Debug, PartialEq, Eq)]
pub enum Reply {
    BlockNumber(u64),
    Header(BlockHeader),
    BodyIndices(BlockBodyIndices),
    Transactions(Vec<Transaction>),
    Receipts(Vec<ReceiptSummary>),
    TransactionId(u64),
    Receipt(ReceiptSummary),
    /// The state snapshot was acquired.
    State,
    /// The account has code of this length.
    Code(usize),
    Account(AccountState),
    Storage(U256),
    /// The segment is open; its header declares the numbers of its first
    /// and of its last record, if it holds any.
    Segment { start: Option<u64>, last: Option<u64> },
    Record(Record),
    /// The store holds nothing under the key.
    NotFound,
    /// The read failed, with the store's message.
    Failed(String),
}

impl Reply {
    /// The error for a reply to `request` that does not carry the data asked
    /// for: the store's own failure, or else data of an unexpected kind.
    pub open spec fn failure(self, request: Request) -> AppError {
        match self {
            Reply::Failed(message) => AppError::Store { request, cause: Cause::Failed(message) },
            _ => AppError::Store { request, cause: Cause::Unexpected },
        }
    }

    /// The error for a reply to `request` that does not carry the data asked
    /// for.
    pub fn into_failure(self, request: Request) -> (error: AppError)
        ensures
            error == self.failure(request),
    {
        match self {
            Reply::Failed(message) => AppError::Store { request, cause: Cause::Failed(message) },
            _ => AppError::Store { request, cause: Cause::Unexpected },
        }
    }
}

/// What one read came back with, where a failure of the read does not end
/// the query that made it but is kept in its result.
#[derive(Clone, Debug, PartialEq, Eq)]
pub enum Outcome<T> {
    Found(T),
    NotFound,
    Failed(AppError),
}

/// Where a query stands: it waits for the reply to a request, with `M` the
/// state to resume from, or it has ended with a `T`.
#[derive(Clone, Debug, PartialEq, Eq)]
pub enum Step<M, T> {
    Ask(Request, M),
    Done(T),
}

/// A step that ends in a list, with the list as a sequence.
pub open spec fn listed<M, T>(step: Step<M, Result<Vec<T>, AppError>>) -> Step<
    M,
    Result<Seq<T>, AppError>,
> {
    match step {
        Step::Ask(request, state) => Step::Ask(request, state),
        Step::Done(Ok(list)) => Step::Done(Ok(list@)),
        Step::Done(Err(error)) => Step::Done(Err(error)),
    }
}

/// The end of a conversation that begins at `step` and in which `store`
/// answers every request, if it ends within `fuel` requests.
pub open spec fn drive<M, T>(
    step: Step<M, T>,
    resume: spec_fn(M, Reply) -> Step<M, T>,
    store: spec_fn(Request) -> Reply,
    fuel: nat,
) -> Option<T>
    decreases fuel,
{
    match step {
        Step::Done(outcome) => Some(outcome),
        Step::Ask(request, state) => if fuel == 0 {
            None
        } else {
            drive(resume(state, store(request)), resume, store, (fuel - 1) as nat)
        },
    }
}

/// The requests that the conversation of [`drive`] makes, in order, as far
/// as `fuel` requests go.
pub open spec fn asked<M, T>(
    step: Step<M, T>,
    resume: spec_fn(M, Reply) -> Step<M, T>,
    store: spec_fn(Request) -> Reply,
    fuel: nat,
) -> Seq<Request>
    decreases fuel,
{
    match step {
        Step::Done(_) => Seq::empty(),
        Step::Ask(request, state) => if fuel == 0 {
            Seq::empty()
        } else {
            seq![request] + asked(resume(state, store(request)), resume, store, (fuel - 1) as nat)
        },
    }
}

/// A conversation that ends within `fuel` requests ends the same way with
/// more.
pub proof fn lemma_drive_more_fuel<M, T>(
    step: Step<M, T>,
    resume: spec_fn(M, Reply) -> Step<M, T>,
    store: spec_fn(Request) -> Reply,
    fuel: nat,
    more: nat,
)
    requires
        drive(step, resume, store, fuel) is Some,
        more >= fuel,
    ensures
        drive(step, resume, store, more) == drive(step, resume, store, fuel),
    decreases fuel,
{
    match step {
        Step::Done(_) => {},
        Step::Ask(request, state) => {
            lemma_drive_more_fuel(
                resume(state, store(request)),
                resume,
                store,
                (fuel - 1) as nat,
                (more - 1) as nat,
            );
        },
    }
}

/// A conversation makes no more requests than it is given fuel for.
pub proof fn lemma_asked_within_fuel<M, T>(
    step: Step<M, T>,
    resume: spec_fn(M, Reply) -> Step<M, T>,
    store: spec_fn(Request) -> Reply,
    fuel: nat,
)
    ensures
        asked(step, resume, store, fuel).len() <= fuel,
    decreases fuel,
{
    match step {
        Step::Done(_) => {},
        Step::Ask(request, state) => {
            if fuel > 0 {
                lemma_asked_within_fuel(
                    resume(state, store(request)),
                    resume,
                    store,
                    (fuel - 1) as nat,
                );
            }
        },
    }
}

/// A query that runs another inside it follows that one move for move: where
/// `lift` turns each move of the inner query into the move of the outer one,
/// asking what the inner one asks, the outer query stands, after the reads
/// of the inner one, where `lift` puts the inner outcome.
pub proof fn lemma_drive_through<M, T, N, U>(
    inner: Step<M, T>,
    inner_resume: spec_fn(M, Reply) -> Step<M, T>,
    lift: spec_fn(Step<M, T>) -> Step<N, U>,
    outer_resume: spec_fn(N, Reply) -> Step<N, U>,
    store: spec_fn(Request) -> Reply,
    fuel: nat,
    more: nat,
)
    requires
        forall|request: Request, state: M|
            (#[trigger] lift(Step::Ask(request, state))) matches Step::Ask(same, _) && same
                == request,
        forall|request: Request, state: M, reply: Reply|
            outer_resume((#[trigger] lift(Step::Ask(request, state)))->Ask_1, reply) == lift(
                #[trigger] inner_resume(state, reply),
            ),
        drive(inner, inner_resume, store, fuel) is Some,
    ensures
        drive(
            lift(inner),
            outer_resume,
            store,
            asked(inner, inner_resume, store, fuel).len() + more,
        ) == drive(
            lift(Step::Done(drive(inner, inner_resume, store, fuel).unwrap())),
            outer_resume,
            store,
            more,
        ),
    decreases fuel,
{
    match inner {
        Step::Done(_) => {
            assert(asked(inner, inner_resume, store, fuel) =~= Seq::<Request>::empty());
        },
        Step::Ask(request, state) => {
            let reply = store(request);
            let next = inner_resume(state, reply);
            let rest = asked(next, inner_resume, store, (fuel - 1) as nat);
            assert(asked(inner, inner_resume, store, fuel) == seq![request] + rest);
            assert(lift(Step::Ask(request, state)) is Ask);
            assert(outer_resume(lift(Step::Ask(request, state))->Ask_1, reply) == lift(next));
            lemma_drive_through(
                next,
                inner_resume,
                lift,
                outer_resume,
                store,
                (fuel - 1) as nat,
                more,
            );
            assert(drive(lift(inner), outer_resume, store, (1 + rest.len() + more) as nat)
                == drive(lift(next), outer_resume, store, (rest.len() + more) as nat));
        },
    }
}

/// Queries are repeatable: what a conversation ends with depends on nothing
/// but the step it begins at and the replies of the store. Two stores that
/// answer every request alike, or one unchanged store asked again, give the
/// same outcome.
pub proof fn law_same_replies_same_outcome<M, T>(
    step: Step<M, T>,
    resume: spec_fn(M, Reply) -> Step<M, T>,
    first: spec_fn(Request) -> Reply,
    second: spec_fn(Request) -> Reply,
    fuel: nat,
)
    requires
        forall|request: Request| #[trigger] first(request) == second(request),
    ensures
        drive(step, resume, first, fuel) == drive(step, resume, second, fuel),
    decreases fuel,
{
    match step {
        Step::Done(_) => {},
        Step::Ask(request, state) => {
            if fuel > 0 {
                assert(first(request) == second(request));
                law_same_replies_same_outcome(
                    resume(state, first(request)),
                    resume,
                    first,
                    second,
                    (fuel - 1) as nat,
                );
            }
        },
    }
}

} // verus!
