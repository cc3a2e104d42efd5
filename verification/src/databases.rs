//! The per-block read queries over an opened store.

use vstd::prelude::*;

use crate::error::AppError;
use crate::model::{BlockHeader, ReceiptSummary, Transaction};
use crate::primitives::B256;
use crate::range::BlockRange;
use crate::store::{asked, drive, listed, Reply, Request, Step};

verus! {

/// An opened store: the block range that was detected when it was opened.
/// The range is never updated; growth of the chain after opening is not
/// followed.
#[derive(Clone, Copy, Debug, PartialEq, Eq)]
pub struct BscDatabase {
    pub latest_block: u64,
    pub earliest_available_block: u64,
}

/// A block as the header query returns it.
#[derive(Clone, Copy, Debug, PartialEq, Eq)]
pub struct BlockData {
    pub header: BlockHeader,
    /// The number of transactions; 0 for a header without a body.
    pub tx_count: u64,
}

/// The header query between two reads.
#[derive(Clone, Copy, Debug, PartialEq, Eq)]
pub enum BlockDataQuery {
    /// The header was asked for.
    Header { block_number: u64 },
    /// The header is here and the body indices were asked for.
    Body { block_number: u64, header: BlockHeader },
}

/// One move of the header query.
pub type BlockDataStep = Step<BlockDataQuery, Result<Option<BlockData>, AppError>>;

impl BlockDataQuery {
    /// The move that follows `reply`. A header that is not there ends the
    /// query with `None`. A header without body indices is a block with a
    /// count of 0. A read that fails, of the header or of the body indices,
    /// ends the query with the failure.
    pub open spec fn fed(self, reply: Reply) -> BlockDataStep {
        match self {
            BlockDataQuery::Header { block_number } => match reply {
                Reply::Header(header) => Step::Ask(
                    Request::BodyIndices(block_number),
                    BlockDataQuery::Body { block_number, header },
                ),
                Reply::NotFound => Step::Done(Ok(None)),
                _ => Step::Done(Err(reply.failure(Request::Header(block_number)))),
            },
            BlockDataQuery::Body { block_number, header } => match reply {
                Reply::BodyIndices(indices) => Step::Done(
                    Ok(Some(BlockData { header, tx_count: indices.count() })),
                ),
                Reply::NotFound => Step::Done(Ok(Some(BlockData { header, tx_count: 0 }))),
                _ => Step::Done(Err(reply.failure(Request::BodyIndices(block_number)))),
            },
        }
    }

    /// `fed` as a function value, for [`drive`].
    pub open spec fn resume() -> spec_fn(BlockDataQuery, Reply) -> BlockDataStep {
        |state: BlockDataQuery, reply: Reply| state.fed(reply)
    }

    /// Takes the reply to the read that was asked for and says what comes
    /// next.
    pub fn feed(self, reply: Reply) -> (step: BlockDataStep)
        ensures
            step == self.fed(reply),
    {
        match self {
            BlockDataQuery::Header { block_number } => match reply {
                Reply::Header(header) => Step::Ask(
                    Request::BodyIndices(block_number),
                    BlockDataQuery::Body { block_number, header },
                ),
                Reply::NotFound => Step::Done(Ok(None)),
                other => Step::Done(Err(other.into_failure(Request::Header(block_number)))),
            },
            BlockDataQuery::Body { block_number, header } => match reply {
                Reply::BodyIndices(indices) => Step::Done(
                    Ok(Some(BlockData { header, tx_count: indices.tx_count() })),
                ),
                Reply::NotFound => Step::Done(Ok(Some(BlockData { header, tx_count: 0 }))),
                other => Step::Done(Err(other.into_failure(Request::BodyIndices(block_number)))),
            },
        }
    }
}

/// A list query between two reads.
#[derive(Clone, Copy, Debug, PartialEq, Eq)]
pub enum ListQuery {
    /// The body indices were asked for.
    Body { block_number: u64 },
    /// The block has a body and its list was asked for.
    List { block_number: u64 },
}

/// One move of the transactions query.
pub type TransactionsStep = Step<ListQuery, Result<Vec<Transaction>, AppError>>;

/// One move of the receipts query.
pub type ReceiptsStep = Step<ListQuery, Result<Vec<ReceiptSummary>, AppError>>;

impl ListQuery {
    /// The move of the transactions query that follows `reply`. A block
    /// without body indices, or without a list, has no transactions; a read
    /// that fails ends the query with the failure.
    pub open spec fn fed_transactions(self, reply: Reply) -> Step<
        ListQuery,
        Result<Seq<Transaction>, AppError>,
    > {
        match self {
            ListQuery::Body { block_number } => match reply {
                Reply::BodyIndices(_) => Step::Ask(
                    Request::Transactions(block_number),
                    ListQuery::List { block_number },
                ),
                Reply::NotFound => Step::Done(Ok(Seq::empty())),
                _ => Step::Done(Err(reply.failure(Request::BodyIndices(block_number)))),
            },
            ListQuery::List { block_number } => match reply {
                Reply::Transactions(list) => Step::Done(Ok(list@)),
                Reply::NotFound => Step::Done(Ok(Seq::empty())),
                _ => Step::Done(Err(reply.failure(Request::Transactions(block_number)))),
            },
        }
    }

    /// The move of the receipts query that follows `reply`, by the rules of
    /// the transactions query.
    pub open spec fn fed_receipts(self, reply: Reply) -> Step<
        ListQuery,
        Result<Seq<ReceiptSummary>, AppError>,
    > {
        match self {
            ListQuery::Body { block_number } => match reply {
                Reply::BodyIndices(_) => Step::Ask(
                    Request::Receipts(block_number),
                    ListQuery::List { block_number },
                ),
                Reply::NotFound => Step::Done(Ok(Seq::empty())),
                _ => Step::Done(Err(reply.failure(Request::BodyIndices(block_number)))),
            },
            ListQuery::List { block_number } => match reply {
                Reply::Receipts(list) => Step::Done(Ok(list@)),
                Reply::NotFound => Step::Done(Ok(Seq::empty())),
                _ => Step::Done(Err(reply.failure(Request::Receipts(block_number)))),
            },
        }
    }

    /// `fed_transactions` as a function value, for [`drive`].
    pub open spec fn resume_transactions() -> spec_fn(ListQuery, Reply) -> Step<
        ListQuery,
        Result<Seq<Transaction>, AppError>,
    > {
        |state: ListQuery, reply: Reply| state.fed_transactions(reply)
    }

    /// `fed_receipts` as a function value, for [`drive`].
    pub open spec fn resume_receipts() -> spec_fn(ListQuery, Reply) -> Step<
        ListQuery,
        Result<Seq<ReceiptSummary>, AppError>,
    > {
        |state: ListQuery, reply: Reply| state.fed_receipts(reply)
    }

    /// Takes the reply to the read that the transactions query asked for and
    /// says what comes next.
    pub fn feed_transactions(self, reply: Reply) -> (step: TransactionsStep)
        ensures
            listed(step) == self.fed_transactions(reply),
    {
        match self {
            ListQuery::Body { block_number } => match reply {
                Reply::BodyIndices(_) => Step::Ask(
                    Request::Transactions(block_number),
                    ListQuery::List { block_number },
                ),
                Reply::NotFound => Step::Done(Ok(Vec::new())),
                other => Step::Done(Err(other.into_failure(Request::BodyIndices(block_number)))),
            },
            ListQuery::List { block_number } => match reply {
                Reply::Transactions(list) => Step::Done(Ok(list)),
                Reply::NotFound => Step::Done(Ok(Vec::new())),
                other => Step::Done(Err(other.into_failure(Request::Transactions(block_number)))),
            },
        }
    }

    /// Takes the reply to the read that the receipts query asked for and
    /// says what comes next.
    pub fn feed_receipts(self, reply: Reply) -> (step: ReceiptsStep)
        ensures
            listed(step) == self.fed_receipts(reply),
    {
        match self {
            ListQuery::Body { block_number } => match reply {
                Reply::BodyIndices(_) => Step::Ask(
                    Request::Receipts(block_number),
                    ListQuery::List { block_number },
                ),
                Reply::NotFound => Step::Done(Ok(Vec::new())),
                other => Step::Done(Err(other.into_failure(Request::BodyIndices(block_number)))),
            },
            ListQuery::List { block_number } => match reply {
                Reply::Receipts(list) => Step::Done(Ok(list)),
                Reply::NotFound => Step::Done(Ok(Vec::new())),
                other => Step::Done(Err(other.into_failure(Request::Receipts(block_number)))),
            },
        }
    }
}

impl BscDatabase {
    /// The detected range holds at least one block.
    pub open spec fn wf(self) -> bool {
        self.earliest_available_block <= self.latest_block
    }

    /// Whether the range holds at least one block.
    pub fn is_wf(&self) -> (valid: bool)
        ensures
            valid == self.wf(),
    {
        self.earliest_available_block <= self.latest_block
    }

    /// The handle of a store for which detection found `range`.
    pub fn new(range: BlockRange) -> (db: BscDatabase)
        ensures
            db.latest_block == range.latest,
            db.earliest_available_block == range.earliest,
            db.wf() == range.wf(),
    {
        BscDatabase { latest_block: range.latest, earliest_available_block: range.earliest }
    }

    /// The first move of the header query: below the earliest block it ends
    /// at once with `None`, else the header is asked for.
    pub open spec fn block_data(self, block_number: u64) -> BlockDataStep {
        if block_number < self.earliest_available_block {
            Step::Done(Ok(None))
        } else {
            Step::Ask(Request::Header(block_number), BlockDataQuery::Header { block_number })
        }
    }

    /// The first move of a list query: below the earliest block it ends at
    /// once with the empty list, else the body indices are asked for.
    pub open spec fn listing<T>(self, block_number: u64) -> Step<
        ListQuery,
        Result<Seq<T>, AppError>,
    > {
        if block_number < self.earliest_available_block {
            Step::Done(Ok(Seq::empty()))
        } else {
            Step::Ask(Request::BodyIndices(block_number), ListQuery::Body { block_number })
        }
    }

    /// The header of block `block_number` with the number of its
    /// transactions, or `None` where the block is below the earliest block or
    /// has no header. Begins the query; [`BlockDataQuery::feed`] goes on.
    pub fn query_headers_with_blocknumber(&self, block_number: u64) -> (step: BlockDataStep)
        ensures
            step == self.block_data(block_number),
    {
        if block_number < self.earliest_available_block {
            Step::Done(Ok(None))
        } else {
            Step::Ask(Request::Header(block_number), BlockDataQuery::Header { block_number })
        }
    }

    /// The transactions of block `block_number` in block order; none where
    /// the block is below the earliest block or has no body. Begins the
    /// query; [`ListQuery::feed_transactions`] goes on.
    pub fn query_block_order_transactions(&self, block_number: u64) -> (step: TransactionsStep)
        ensures
            listed(step) == self.listing::<Transaction>(block_number),
    {
        if block_number < self.earliest_available_block {
            Step::Done(Ok(Vec::new()))
        } else {
            Step::Ask(Request::BodyIndices(block_number), ListQuery::Body { block_number })
        }
    }

    /// The receipts of block `block_number` in block order; none where the
    /// block is below the earliest block or has no body. Begins the query;
    /// [`ListQuery::feed_receipts`] goes on.
    pub fn get_receipts(&self, block_number: u64) -> (step: ReceiptsStep)
        ensures
            listed(step) == self.listing::<ReceiptSummary>(block_number),
    {
        if block_number < self.earliest_available_block {
            Step::Done(Ok(Vec::new()))
        } else {
            Step::Ask(Request::BodyIndices(block_number), ListQuery::Body { block_number })
        }
    }
}

/// The receipt-by-hash query between two reads.
#[derive(Clone, Copy, Debug, PartialEq, Eq)]
pub enum ReceiptQuery {
    /// The record number of the hash was asked for.
    Id { tx_hash: B256 },
    /// The receipt under the record number was asked for.
    Receipt { number: u64 },
}

/// One move of the receipt-by-hash query.
pub type ReceiptStep = Step<ReceiptQuery, Result<Option<ReceiptSummary>, AppError>>;

impl ReceiptQuery {
    /// The first move: ask for the record number of `tx_hash`.
    pub open spec fn begin(tx_hash: B256) -> ReceiptStep {
        Step::Ask(Request::TransactionId(tx_hash), ReceiptQuery::Id { tx_hash })
    }

    /// The move that follows `reply`. An unknown hash and a record without a
    /// receipt both end the query with `None`; a read that fails ends it with
    /// the failure.
    pub open spec fn fed(self, reply: Reply) -> ReceiptStep {
        match self {
            ReceiptQuery::Id { tx_hash } => match reply {
                Reply::TransactionId(number) => Step::Ask(
                    Request::Receipt(number),
                    ReceiptQuery::Receipt { number },
                ),
                Reply::NotFound => Step::Done(Ok(None)),
                _ => Step::Done(Err(reply.failure(Request::TransactionId(tx_hash)))),
            },
            ReceiptQuery::Receipt { number } => match reply {
                Reply::Receipt(receipt) => Step::Done(Ok(Some(receipt))),
                Reply::NotFound => Step::Done(Ok(None)),
                _ => Step::Done(Err(reply.failure(Request::Receipt(number)))),
            },
        }
    }

    /// `fed` as a function value, for [`drive`].
    pub open spec fn resume() -> spec_fn(ReceiptQuery, Reply) -> ReceiptStep {
        |state: ReceiptQuery, reply: Reply| state.fed(reply)
    }

    /// Takes the reply to the read that was asked for and says what comes
    /// next.
    pub fn feed(self, reply: Reply) -> (step: ReceiptStep)
        ensures
            step == self.fed(reply),
    {
        match self {
            ReceiptQuery::Id { tx_hash } => match reply {
                Reply::TransactionId(number) => Step::Ask(
                    Request::Receipt(number),
                    ReceiptQuery::Receipt { number },
                ),
                Reply::NotFound => Step::Done(Ok(None)),
                other => Step::Done(Err(other.into_failure(Request::TransactionId(tx_hash)))),
            },
            ReceiptQuery::Receipt { number } => match reply {
                Reply::Receipt(receipt) => Step::Done(Ok(Some(receipt))),
                Reply::NotFound => Step::Done(Ok(None)),
                other => Step::Done(Err(other.into_failure(Request::Receipt(number)))),
            },
        }
    }
}

/// What a look at one header found.
#[derive(Clone, Debug, PartialEq, Eq)]
pub enum HeaderStatus {
    /// The block is below the earliest block; the store was not asked.
    BeforeEarliest,
    Found(BlockHeader),
    NotFound,
    /// The read failed; the look itself does not.
    Unreadable(AppError),
}

/// A look at one header, waiting for the header of `block_number`.
#[derive(Clone, Copy, Debug, PartialEq, Eq)]
pub struct HeaderProbe {
    pub block_number: u64,
}

/// One move of a look at one header.
pub type HeaderProbeStep = Step<HeaderProbe, HeaderStatus>;

impl HeaderProbe {
    /// The status that `reply` amounts to.
    pub open spec fn fed(self, reply: Reply) -> HeaderProbeStep {
        Step::Done(
            match reply {
                Reply::Header(header) => HeaderStatus::Found(header),
                Reply::NotFound => HeaderStatus::NotFound,
                _ => HeaderStatus::Unreadable(reply.failure(Request::Header(self.block_number))),
            },
        )
    }

    /// Takes the reply to the header read and ends the look.
    pub fn feed(self, reply: Reply) -> (step: HeaderProbeStep)
        ensures
            step == self.fed(reply),
    {
        Step::Done(
            match reply {
                Reply::Header(header) => HeaderStatus::Found(header),
                Reply::NotFound => HeaderStatus::NotFound,
                other => HeaderStatus::Unreadable(
                    other.into_failure(Request::Header(self.block_number)),
                ),
            },
        )
    }
}

/// Whether the state as of a block can be looked at.
#[derive(Clone, Copy, Debug, PartialEq, Eq, Structural)]
pub enum StateAtBlock {
    /// The block is below the earliest block.
    BeforeEarliest,
    /// The block is in range, but state is only ever read as of the latest
    /// block.
    LatestOnly,
}

impl BscDatabase {
    /// The receipt of the transaction with hash `tx_hash`, or `None` where
    /// the hash is unknown or its record has no receipt. Begins the query;
    /// [`ReceiptQuery::feed`] goes on.
    pub fn get_receipt_by_hash(&self, tx_hash: B256) -> (step: ReceiptStep)
        ensures
            step == ReceiptQuery::begin(tx_hash),
    {
        Step::Ask(Request::TransactionId(tx_hash), ReceiptQuery::Id { tx_hash })
    }

    /// The first move of a look at one header.
    pub open spec fn header_probe(self, block_number: u64) -> HeaderProbeStep {
        if block_number < self.earliest_available_block {
            Step::Done(HeaderStatus::BeforeEarliest)
        } else {
            Step::Ask(Request::Header(block_number), HeaderProbe { block_number })
        }
    }

    /// Looks at the header of one block and reports what is there. A read
    /// that fails is part of the report, not a failure of the look.
    pub fn test_header_by_number(&self, block_number: u64) -> (step: HeaderProbeStep)
        ensures
            step == self.header_probe(block_number),
    {
        if block_number < self.earliest_available_block {
            Step::Done(HeaderStatus::BeforeEarliest)
        } else {
            Step::Ask(Request::Header(block_number), HeaderProbe { block_number })
        }
    }

    /// Says what can be read of the state as of `block_number`: nothing
    /// below the earliest block, and above it only the latest state.
    pub fn test_state_at_block(&self, block_number: u64) -> (status: StateAtBlock)
        ensures
            status == if block_number < self.earliest_available_block {
                StateAtBlock::BeforeEarliest
            } else {
                StateAtBlock::LatestOnly
            },
    {
        if block_number < self.earliest_available_block {
            StateAtBlock::BeforeEarliest
        } else {
            StateAtBlock::LatestOnly
        }
    }

    /// The distance between two sample blocks when `count` are asked for: the
    /// number of available blocks divided by `count`, and 1 where there are
    /// no more blocks than samples.
    pub open spec fn sample_step(self, count: usize) -> int {
        let available = self.latest_block - self.earliest_available_block + 1;
        if count > 1 && available > count {
            available / (count as int)
        } else {
            1
        }
    }

    /// Whether `block` is one of the sample blocks for `count`: the latest
    /// block, or one of the `count - 1` blocks that lie a multiple of the
    /// step below it, as far as they are in range.
    pub open spec fn is_sample(self, count: usize, block: u64) -> bool {
        exists|i: int|
            0 <= i && (i == 0 || i < count) && #[trigger] (i * self.sample_step(count))
                <= self.latest_block - self.earliest_available_block && block
                == self.latest_block - i * self.sample_step(count)
    }

    /// How many sample blocks come out when `count` are asked for: one where
    /// no more than one is asked for, else `count`, or every block of the
    /// range where the range has fewer.
    pub open spec fn sample_count(self, count: usize) -> int {
        let available = self.latest_block - self.earliest_available_block + 1;
        if count <= 1 {
            1
        } else if available > count {
            count as int
        } else {
            available
        }
    }

    /// The sample blocks for `count`, in ascending order: the last is the
    /// latest block and each one before it lies one step lower.
    pub open spec fn samples(self, count: usize) -> Seq<u64> {
        Seq::new(
            self.sample_count(count) as nat,
            |at: int|
                (self.latest_block - (self.sample_count(count) - 1 - at) * self.sample_step(
                    count,
                )) as u64,
        )
    }

    /// Up to `count` block numbers spread evenly over the range, the latest
    /// block always among them, in ascending order and each once.
    pub fn get_safe_test_blocks(&self, count: usize) -> (blocks: Vec<u64>)
        requires
            self.wf(),
        ensures
            blocks@ == self.samples(count),
            forall|i: int, j: int| 0 <= i < j < blocks@.len() ==> blocks@[i] < blocks@[j],
            forall|block: u64| blocks@.contains(block) <==> self.is_sample(count, block),
            1 <= blocks@.len() <= if count > 1 {
                count
            } else {
                1
            },
            blocks@.last() == self.latest_block,
            forall|i: int|
                0 <= i < blocks@.len() ==> self.earliest_available_block <= #[trigger] blocks@[i]
                    <= self.latest_block,
    {
        let latest = self.latest_block;
        let span: u64 = latest - self.earliest_available_block;
        let mut step: u64 = 1;
        let mut kept: u64 = 1;
        if count > 1 {
            let wanted: u64 = count as u64;
            if span >= wanted {
                let wide: u128 = (span as u128 + 1) / (wanted as u128);
                assert(wide * wanted <= span + 1 && wide >= 1) by (nonlinear_arith)
                    requires
                        wide == (span + 1) / (wanted as int),
                        span >= wanted,
                        wanted > 1,
                ;
                assert(wide <= span) by (nonlinear_arith)
                    requires
                        wide * wanted <= span + 1,
                        wanted > 1,
                        wide >= 1,
                ;
                step = wide as u64;
                kept = wanted;
                assert((kept - 1) * step <= span) by (nonlinear_arith)
                    requires
                        step * kept <= span + 1,
                        step >= 1,
                        kept > 1,
                ;
            } else {
                kept = span + 1;
            }
        }
        assert(step == self.sample_step(count));
        assert(kept == self.sample_count(count));
        let mut blocks: Vec<u64> = Vec::new();
        let mut left: u64 = kept;
        while left > 0
            invariant
                left <= kept,
                kept >= 1,
                step >= 1,
                (kept - 1) * step <= span,
                span <= latest,
                blocks@.len() == kept - left,
                forall|p: int|
                    0 <= p < blocks@.len() ==> #[trigger] blocks@[p] == latest - (kept - 1 - p)
                        * step,
            decreases left,
        {
            let i: u64 = left - 1;
            assert(i * step <= (kept - 1) * step) by (nonlinear_arith)
                requires
                    i <= kept - 1,
                    step >= 1,
            ;
            blocks.push(latest - i * step);
            left -= 1;
        }
        proof {
            assert forall|i: int, j: int| 0 <= i < j < blocks@.len() implies blocks@[i]
                < blocks@[j] by {
                assert((kept - 1 - j) * step < (kept - 1 - i) * step) by (nonlinear_arith)
                    requires
                        i < j,
                        step >= 1,
                ;
            }
            assert forall|block: u64| blocks@.contains(block) implies self.is_sample(
                count,
                block,
            ) by {
                let p = choose|p: int| 0 <= p < blocks@.len() && blocks@[p] == block;
                let i = kept - 1 - p;
                assert(i * step <= (kept - 1) * step) by (nonlinear_arith)
                    requires
                        0 <= i <= kept - 1,
                        step >= 1,
                ;
                assert(i * self.sample_step(count) <= span);
            }
            assert forall|block: u64| self.is_sample(count, block) implies blocks@.contains(
                block,
            ) by {
                let i = choose|i: int|
                    0 <= i && (i == 0 || i < count) && #[trigger] (i * self.sample_step(count))
                        <= self.latest_block - self.earliest_available_block && block
                        == self.latest_block - i * self.sample_step(count);
                assert(i < kept) by (nonlinear_arith)
                    requires
                        0 <= i,
                        i == 0 || i < count,
                        i * step <= span,
                        step >= 1,
                        kept >= 1,
                        count > 1 && span >= count ==> kept == count,
                        !(count > 1 && span >= count) ==> step == 1,
                        !(count > 1 && span >= count) && count > 1 ==> kept == span + 1,
                ;
                assert(blocks@[kept - 1 - i] == block);
            }
            assert forall|p: int| 0 <= p < blocks@.len() implies self.earliest_available_block
                <= #[trigger] blocks@[p] <= self.latest_block by {
                assert((kept - 1 - p) * step <= (kept - 1) * step) by (nonlinear_arith)
                    requires
                        0 <= kept - 1 - p <= kept - 1,
                        step >= 1,
                ;
            }
            assert(blocks@ =~= self.samples(count));
        }
        blocks
    }
}

/// What a store holds of a block: nothing where the header is not there,
/// else the header with the count of the body indices, 0 where the block
/// has none. A read that fails, of the header or of the body indices, is the
/// error.
pub open spec fn header_data_answer(block_number: u64, store: spec_fn(Request) -> Reply) -> Result<
    Option<BlockData>,
    AppError,
> {
    match store(Request::Header(block_number)) {
        Reply::Header(header) => match store(Request::BodyIndices(block_number)) {
            Reply::BodyIndices(indices) => Ok(
                Some(BlockData { header, tx_count: indices.count() }),
            ),
            Reply::NotFound => Ok(Some(BlockData { header, tx_count: 0 })),
            other => Err(other.failure(Request::BodyIndices(block_number))),
        },
        Reply::NotFound => Ok(None),
        other => Err(other.failure(Request::Header(block_number))),
    }
}

impl BscDatabase {
    /// What the header query returns for a store: nothing below the earliest
    /// block, else what the store holds of the block.
    pub open spec fn block_data_answer(
        self,
        block_number: u64,
        store: spec_fn(Request) -> Reply,
    ) -> Result<Option<BlockData>, AppError> {
        if block_number < self.earliest_available_block {
            Ok(None)
        } else {
            header_data_answer(block_number, store)
        }
    }

    /// What the transactions query returns for a store: the store's list for
    /// a block that is in range and has body indices; the empty list below
    /// the earliest block and where indices or list are not there. A read
    /// that fails is the error.
    pub open spec fn transactions_answer(
        self,
        block_number: u64,
        store: spec_fn(Request) -> Reply,
    ) -> Result<Seq<Transaction>, AppError> {
        if block_number < self.earliest_available_block {
            Ok(Seq::empty())
        } else {
            match store(Request::BodyIndices(block_number)) {
                Reply::BodyIndices(_) => match store(Request::Transactions(block_number)) {
                    Reply::Transactions(list) => Ok(list@),
                    Reply::NotFound => Ok(Seq::empty()),
                    other => Err(other.failure(Request::Transactions(block_number))),
                },
                Reply::NotFound => Ok(Seq::empty()),
                other => Err(other.failure(Request::BodyIndices(block_number))),
            }
        }
    }

    /// What the receipts query returns for a store, by the rules of the
    /// transactions query.
    pub open spec fn receipts_answer(
        self,
        block_number: u64,
        store: spec_fn(Request) -> Reply,
    ) -> Result<Seq<ReceiptSummary>, AppError> {
        if block_number < self.earliest_available_block {
            Ok(Seq::empty())
        } else {
            match store(Request::BodyIndices(block_number)) {
                Reply::BodyIndices(_) => match store(Request::Receipts(block_number)) {
                    Reply::Receipts(list) => Ok(list@),
                    Reply::NotFound => Ok(Seq::empty()),
                    other => Err(other.failure(Request::Receipts(block_number))),
                },
                Reply::NotFound => Ok(Seq::empty()),
                other => Err(other.failure(Request::BodyIndices(block_number))),
            }
        }
    }
}

/// What the receipt-by-hash query returns for a store: the receipt under the
/// record number of the hash, or nothing where the hash is unknown or the
/// record has no receipt. A read that fails is the error.
pub open spec fn receipt_answer(tx_hash: B256, store: spec_fn(Request) -> Reply) -> Result<
    Option<ReceiptSummary>,
    AppError,
> {
    match store(Request::TransactionId(tx_hash)) {
        Reply::TransactionId(number) => match store(Request::Receipt(number)) {
            Reply::Receipt(receipt) => Ok(Some(receipt)),
            Reply::NotFound => Ok(None),
            other => Err(other.failure(Request::Receipt(number))),
        },
        Reply::NotFound => Ok(None),
        other => Err(other.failure(Request::TransactionId(tx_hash))),
    }
}

/// Each query, with its reads answered by a store, ends within two reads
/// with its answer for that store.
pub proof fn law_queries_end_with_their_answers(
    db: BscDatabase,
    block_number: u64,
    tx_hash: B256,
    store: spec_fn(Request) -> Reply,
)
    ensures
        drive(db.block_data(block_number), BlockDataQuery::resume(), store, 2) == Some(
            db.block_data_answer(block_number, store),
        ),
        drive(
            db.listing::<Transaction>(block_number),
            ListQuery::resume_transactions(),
            store,
            2,
        ) == Some(db.transactions_answer(block_number, store)),
        drive(db.listing::<ReceiptSummary>(block_number), ListQuery::resume_receipts(), store, 2)
            == Some(db.receipts_answer(block_number, store)),
        drive(ReceiptQuery::begin(tx_hash), ReceiptQuery::resume(), store, 2) == Some(
            receipt_answer(tx_hash, store),
        ),
{
    reveal_with_fuel(drive, 3);
}

/// Below the earliest block the three per-block queries answer with nothing
/// and never ask the store: however many reads they are allowed, they make
/// none, and their outcome is there with no read allowed at all.
pub proof fn law_below_earliest_asks_nothing(
    db: BscDatabase,
    block_number: u64,
    store: spec_fn(Request) -> Reply,
    fuel: nat,
)
    requires
        block_number < db.earliest_available_block,
    ensures
        asked(db.block_data(block_number), BlockDataQuery::resume(), store, fuel)
            == Seq::<Request>::empty(),
        asked(
            db.listing::<Transaction>(block_number),
            ListQuery::resume_transactions(),
            store,
            fuel,
        ) == Seq::<Request>::empty(),
        asked(db.listing::<ReceiptSummary>(block_number), ListQuery::resume_receipts(), store, fuel)
            == Seq::<Request>::empty(),
        drive(db.block_data(block_number), BlockDataQuery::resume(), store, 0) == Some(
            Ok::<Option<BlockData>, AppError>(None),
        ),
        drive(
            db.listing::<Transaction>(block_number),
            ListQuery::resume_transactions(),
            store,
            0,
        ) == Some(Ok::<Seq<Transaction>, AppError>(Seq::empty())),
        drive(db.listing::<ReceiptSummary>(block_number), ListQuery::resume_receipts(), store, 0)
            == Some(Ok::<Seq<ReceiptSummary>, AppError>(Seq::empty())),
{
}

/// Where a block has body indices and the store lists its transactions, the
/// query returns that list as it is: as many transactions as the indices
/// count where the store's list is that long, and at each index the record
/// that stands at `first + index`.
pub proof fn law_transactions_follow_indices(
    db: BscDatabase,
    block_number: u64,
    store: spec_fn(Request) -> Reply,
    records: spec_fn(int) -> Transaction,
)
    requires
        block_number >= db.earliest_available_block,
        store(Request::BodyIndices(block_number)) is BodyIndices,
        store(Request::Transactions(block_number)) is Transactions,
        ({
            let indices = store(Request::BodyIndices(block_number))->BodyIndices_0;
            let list = store(Request::Transactions(block_number))->Transactions_0;
            &&& list@.len() == indices.count()
            &&& forall|i: int|
                0 <= i < indices.count() ==> list@[i] == records(indices.first() + i)
        }),
    ensures
        drive(
            db.listing::<Transaction>(block_number),
            ListQuery::resume_transactions(),
            store,
            2,
        ) matches Some(Ok(list)) && {
            let indices = store(Request::BodyIndices(block_number))->BodyIndices_0;
            &&& list.len() == indices.count()
            &&& forall|i: int| 0 <= i < list.len() ==> list[i] == records(indices.first() + i)
        },
{
    let first = ListQuery::Body { block_number }.fed_transactions(
        store(Request::BodyIndices(block_number)),
    );
    assert(drive(
        db.listing::<Transaction>(block_number),
        ListQuery::resume_transactions(),
        store,
        2,
    ) == drive(first, ListQuery::resume_transactions(), store, 1));
    let second = ListQuery::List { block_number }.fed_transactions(
        store(Request::Transactions(block_number)),
    );
    assert(drive(first, ListQuery::resume_transactions(), store, 1) == drive(
        second,
        ListQuery::resume_transactions(),
        store,
        0,
    ));
}

} // verus!
