//! Reading records out of the archive: the records of one block, by its
//! body indices, and all records of the segment that holds a block.

use vstd::prelude::*;

use crate::error::{AppError, Missing};
use crate::store::{drive, Record, Reply, Request, SegmentKind, Step};

verus! {

/// The category of segment that a record belongs to.
pub open spec fn kind_of(record: Record) -> SegmentKind {
    match record {
        Record::Transaction(_) => SegmentKind::Transactions,
        Record::Receipt(_) => SegmentKind::Receipts,
    }
}

/// Whether `reply` carries a record of category `kind`.
pub open spec fn is_record(reply: Reply, kind: SegmentKind) -> bool {
    reply matches Reply::Record(record) && kind_of(record) == kind
}

fn has_kind(record: &Record, kind: SegmentKind) -> (same: bool)
    ensures
        same == (kind_of(*record) == kind),
{
    match record {
        Record::Transaction(_) => match kind {
            SegmentKind::Transactions => true,
            SegmentKind::Receipts => false,
        },
        Record::Receipt(_) => match kind {
            SegmentKind::Transactions => false,
            SegmentKind::Receipts => true,
        },
    }
}

/// What a scan of one block's records found.
#[derive(Clone, Debug, PartialEq, Eq)]
pub struct ScanReport {
    pub kind: SegmentKind,
    pub block: u64,
    /// The first record number of the block.
    pub first: u64,
    /// The record number just past the block's last record.
    pub end: u64,
    /// The records that were there, in ascending order of their numbers.
    pub records: Vec<Record>,
    /// The record numbers under which the segment held nothing, ascending.
    pub missing: Vec<u64>,
}

/// A [`ScanReport`] with its lists as sequences.
pub struct ScanReportModel {
    pub kind: SegmentKind,
    pub block: u64,
    pub first: u64,
    pub end: u64,
    pub records: Seq<Record>,
    pub missing: Seq<u64>,
}

impl View for ScanReport {
    type V = ScanReportModel;

    open spec fn view(&self) -> ScanReportModel {
        ScanReportModel {
            kind: self.kind,
            block: self.block,
            first: self.first,
            end: self.end,
            records: self.records@,
            missing: self.missing@,
        }
    }
}

impl ScanReport {
    /// Whether every record of the block was there. A scan that is not
    /// complete has read an incomplete segment.
    pub fn is_complete(&self) -> (complete: bool)
        ensures
            complete == (self.records@.len() == self.end - self.first),
    {
        self.end >= self.first && self.records.len() as u128 == (self.end - self.first) as u128
    }
}

/// What the scan of a block waits for.
#[derive(Clone, Copy, Debug, PartialEq, Eq)]
pub enum BlockScanStage {
    /// The body indices of the block.
    Indices,
    /// The segment that holds the block, whose records are `first..end`.
    Segment { first: u64, end: u64 },
    /// Record `next` of `first..end`.
    Record { first: u64, end: u64, next: u64 },
}

/// The scan of one block's records between two reads.
#[derive(Clone, Debug, PartialEq, Eq)]
pub struct BlockScan {
    pub kind: SegmentKind,
    pub block: u64,
    pub stage: BlockScanStage,
    pub records: Vec<Record>,
    pub missing: Vec<u64>,
}

/// A [`BlockScan`] with its lists as sequences.
pub struct BlockScanModel {
    pub kind: SegmentKind,
    pub block: u64,
    pub stage: BlockScanStage,
    pub records: Seq<Record>,
    pub missing: Seq<u64>,
}

impl View for BlockScan {
    type V = BlockScanModel;

    open spec fn view(&self) -> BlockScanModel {
        BlockScanModel {
            kind: self.kind,
            block: self.block,
            stage: self.stage,
            records: self.records@,
            missing: self.missing@,
        }
    }
}

/// One move of the scan of a block.
pub type BlockScanStep = Step<BlockScan, Result<ScanReport, AppError>>;

/// One move of the scan of a block, over sequences.
pub type BlockScanModelStep = Step<BlockScanModel, Result<ScanReportModel, AppError>>;

/// A move of the scan of a block with its lists as sequences.
pub open spec fn block_scan_view(step: BlockScanStep) -> BlockScanModelStep {
    match step {
        Step::Ask(request, state) => Step::Ask(request, state@),
        Step::Done(Ok(report)) => Step::Done(Ok(report@)),
        Step::Done(Err(error)) => Step::Done(Err(error)),
    }
}

impl BlockScanModel {
    /// The first move: ask for the body indices of the block.
    pub open spec fn begin(kind: SegmentKind, block: u64) -> BlockScanModelStep {
        Step::Ask(
            Request::BodyIndices(block),
            BlockScanModel {
                kind,
                block,
                stage: BlockScanStage::Indices,
                records: Seq::empty(),
                missing: Seq::empty(),
            },
        )
    }

    /// The scan when record `next` of `first..end` is due: the record is
    /// asked for, or the scan is over. A scan that saw no record at all ends
    /// in an error that names the block and the range.
    pub open spec fn at_record(self, first: u64, end: u64, next: int) -> BlockScanModelStep {
        if next < end {
            Step::Ask(
                Request::Record(self.kind, next as u64),
                BlockScanModel {
                    stage: BlockScanStage::Record { first, end, next: next as u64 },
                    ..self
                },
            )
        } else if self.records.len() == 0 {
            Step::Done(Err(AppError::NotFound(Missing::Records { block: self.block, first, end })))
        } else {
            Step::Done(
                Ok(
                    ScanReportModel {
                        kind: self.kind,
                        block: self.block,
                        first,
                        end,
                        records: self.records,
                        missing: self.missing,
                    },
                ),
            )
        }
    }

    /// The move that follows `reply`. Without body indices or without a
    /// segment there is nothing to scan, which is an error. A record that is
    /// not there is noted and the scan goes on; a read that fails ends the
    /// scan with the failure.
    pub open spec fn fed(self, reply: Reply) -> BlockScanModelStep {
        match self.stage {
            BlockScanStage::Indices => match reply {
                Reply::BodyIndices(indices) => Step::Ask(
                    Request::Segment(self.kind, self.block),
                    BlockScanModel {
                        stage: BlockScanStage::Segment {
                            first: indices.first(),
                            end: indices.end() as u64,
                        },
                        ..self
                    },
                ),
                Reply::NotFound => Step::Done(
                    Err(AppError::NotFound(Missing::BodyIndices { block: self.block })),
                ),
                _ => Step::Done(Err(reply.failure(Request::BodyIndices(self.block)))),
            },
            BlockScanStage::Segment { first, end } => match reply {
                Reply::Segment { .. } => self.at_record(first, end, first as int),
                Reply::NotFound => Step::Done(
                    Err(AppError::NotFound(Missing::Segment { block: self.block })),
                ),
                _ => Step::Done(Err(reply.failure(Request::Segment(self.kind, self.block)))),
            },
            BlockScanStage::Record { first, end, next } => if is_record(reply, self.kind) {
                BlockScanModel {
                    records: self.records.push(reply->Record_0),
                    ..self
                }.at_record(first, end, next + 1)
            } else if reply is NotFound {
                BlockScanModel { missing: self.missing.push(next), ..self }.at_record(
                    first,
                    end,
                    next + 1,
                )
            } else {
                Step::Done(Err(reply.failure(Request::Record(self.kind, next))))
            },
        }
    }

    /// `fed` as a function value, for [`drive`].
    pub open spec fn resume() -> spec_fn(BlockScanModel, Reply) -> BlockScanModelStep {
        |state: BlockScanModel, reply: Reply| state.fed(reply)
    }
}

impl BlockScan {
    fn next_record(self, first: u64, end: u64, next: u64) -> (step: BlockScanStep)
        ensures
            block_scan_view(step) == self@.at_record(first, end, next as int),
    {
        if next < end {
            let request = Request::Record(self.kind, next);
            let mut state = self;
            state.stage = BlockScanStage::Record { first, end, next };
            Step::Ask(request, state)
        } else if self.records.len() == 0 {
            Step::Done(Err(AppError::NotFound(Missing::Records { block: self.block, first, end })))
        } else {
            Step::Done(
                Ok(
                    ScanReport {
                        kind: self.kind,
                        block: self.block,
                        first,
                        end,
                        records: self.records,
                        missing: self.missing,
                    },
                ),
            )
        }
    }

    /// Takes the reply to the read that was asked for and says what comes
    /// next.
    pub fn feed(self, reply: Reply) -> (step: BlockScanStep)
        ensures
            block_scan_view(step) == self@.fed(reply),
    {
        match self.stage {
            BlockScanStage::Indices => match reply {
                Reply::BodyIndices(indices) => {
                    let request = Request::Segment(self.kind, self.block);
                    let mut state = self;
                    state.stage = BlockScanStage::Segment {
                        first: indices.first_tx_num(),
                        end: indices.end_tx_num(),
                    };
                    Step::Ask(request, state)
                },
                Reply::NotFound => Step::Done(
                    Err(AppError::NotFound(Missing::BodyIndices { block: self.block })),
                ),
                other => Step::Done(Err(other.into_failure(Request::BodyIndices(self.block)))),
            },
            BlockScanStage::Segment { first, end } => match reply {
                Reply::Segment { .. } => self.next_record(first, end, first),
                Reply::NotFound => Step::Done(
                    Err(AppError::NotFound(Missing::Segment { block: self.block })),
                ),
                other => Step::Done(
                    Err(other.into_failure(Request::Segment(self.kind, self.block))),
                ),
            },
            BlockScanStage::Record { first, end, next } => {
                let kind = self.kind;
                match reply {
                    Reply::Record(record) => {
                        if has_kind(&record, kind) {
                            let mut state = self;
                            state.records.push(record);
                            state.advance(first, end, next)
                        } else {
                            Step::Done(
                                Err(
                                    Reply::Record(record).into_failure(
                                        Request::Record(kind, next),
                                    ),
                                ),
                            )
                        }
                    },
                    Reply::NotFound => {
                        let mut state = self;
                        state.missing.push(next);
                        state.advance(first, end, next)
                    },
                    other => Step::Done(Err(other.into_failure(Request::Record(kind, next)))),
                }
            },
        }
    }

    fn advance(self, first: u64, end: u64, next: u64) -> (step: BlockScanStep)
        ensures
            block_scan_view(step) == self@.at_record(first, end, next + 1),
    {
        if next < u64::MAX {
            self.next_record(first, end, next + 1)
        } else {
            self.next_record(first, end, end)
        }
    }
}

/// Begins the scan of the records of category `kind` that belong to block
/// `block_number`; [`BlockScan::feed`] goes on.
pub fn scan_block(kind: SegmentKind, block_number: u64) -> (step: BlockScanStep)
    ensures
        block_scan_view(step) == BlockScanModel::begin(kind, block_number),
{
    Step::Ask(
        Request::BodyIndices(block_number),
        BlockScan {
            kind,
            block: block_number,
            stage: BlockScanStage::Indices,
            records: Vec::new(),
            missing: Vec::new(),
        },
    )
}

/// Begins the scan of the transactions of block `block_number` in the
/// archive; [`BlockScan::feed`] goes on.
pub fn test_transactions(block_number: u64) -> (step: BlockScanStep)
    ensures
        block_scan_view(step) == BlockScanModel::begin(SegmentKind::Transactions, block_number),
{
    scan_block(SegmentKind::Transactions, block_number)
}

/// What a scan of a whole segment found.
#[derive(Clone, Debug, PartialEq, Eq)]
pub struct SegmentReport {
    pub kind: SegmentKind,
    /// The block by which the segment was found.
    pub block: u64,
    /// The record number at which the scan began: the one the segment
    /// declares as its first, or 0 where it declares none.
    pub start: u64,
    /// The record number at which the scan ended: the one the segment
    /// declares as its last.
    pub last: u64,
    /// The records that were there, in ascending order of their numbers; at
    /// least one.
    pub records: Vec<Record>,
    /// The record numbers under which the segment held nothing, ascending.
    pub missing: Vec<u64>,
}

/// A [`SegmentReport`] with its lists as sequences.
pub struct SegmentReportModel {
    pub kind: SegmentKind,
    pub block: u64,
    pub start: u64,
    pub last: u64,
    pub records: Seq<Record>,
    pub missing: Seq<u64>,
}

impl View for SegmentReport {
    type V = SegmentReportModel;

    open spec fn view(&self) -> SegmentReportModel {
        SegmentReportModel {
            kind: self.kind,
            block: self.block,
            start: self.start,
            last: self.last,
            records: self.records@,
            missing: self.missing@,
        }
    }
}

impl SegmentReport {
    /// Whether every record of the segment was there.
    pub fn is_complete(&self) -> (complete: bool)
        ensures
            complete == (self.missing@.len() == 0),
    {
        self.missing.len() == 0
    }
}

/// What the scan of a segment waits for.
#[derive(Clone, Copy, Debug, PartialEq, Eq)]
pub enum SegmentScanStage {
    /// The segment that holds the block.
    Segment,
    /// Record `next` of `start..=last`.
    Record { start: u64, last: u64, next: u64 },
}

/// The scan of a whole segment between two reads.
#[derive(Clone, Debug, PartialEq, Eq)]
pub struct SegmentScan {
    pub kind: SegmentKind,
    pub block: u64,
    pub stage: SegmentScanStage,
    pub records: Vec<Record>,
    pub missing: Vec<u64>,
}

/// A [`SegmentScan`] with its lists as sequences.
pub struct SegmentScanModel {
    pub kind: SegmentKind,
    pub block: u64,
    pub stage: SegmentScanStage,
    pub records: Seq<Record>,
    pub missing: Seq<u64>,
}

impl View for SegmentScan {
    type V = SegmentScanModel;

    open spec fn view(&self) -> SegmentScanModel {
        SegmentScanModel {
            kind: self.kind,
            block: self.block,
            stage: self.stage,
            records: self.records@,
            missing: self.missing@,
        }
    }
}

/// One move of the scan of a segment.
pub type SegmentScanStep = Step<SegmentScan, Result<SegmentReport, AppError>>;

/// One move of the scan of a segment, over sequences.
pub type SegmentScanModelStep = Step<SegmentScanModel, Result<SegmentReportModel, AppError>>;

/// A move of the scan of a segment with its lists as sequences.
pub open spec fn segment_scan_view(step: SegmentScanStep) -> SegmentScanModelStep {
    match step {
        Step::Ask(request, state) => Step::Ask(request, state@),
        Step::Done(Ok(report)) => Step::Done(Ok(report@)),
        Step::Done(Err(error)) => Step::Done(Err(error)),
    }
}

/// The record number at which the scan of a segment begins: the first that
/// the segment declares, or 0 where it declares none.
pub open spec fn scan_start(start: Option<u64>) -> u64 {
    match start {
        Some(number) => number,
        None => 0,
    }
}

/// The record number just past the scan of a segment: the one after the
/// last that the segment declares, or the start itself where it declares no
/// last record, so that nothing is read.
pub open spec fn scan_end(start: Option<u64>, last: Option<u64>) -> int {
    match last {
        Some(number) => number + 1,
        None => scan_start(start) as int,
    }
}

impl SegmentScanModel {
    /// The first move: ask for the segment that holds the block.
    pub open spec fn begin(kind: SegmentKind, block: u64) -> SegmentScanModelStep {
        Step::Ask(
            Request::Segment(kind, block),
            SegmentScanModel {
                kind,
                block,
                stage: SegmentScanStage::Segment,
                records: Seq::empty(),
                missing: Seq::empty(),
            },
        )
    }

    /// What the scan ends with: an error where it saw no record at all, else
    /// its report.
    pub open spec fn end(self, start: u64, last: u64) -> SegmentScanModelStep {
        if self.records.len() == 0 {
            Step::Done(
                Err(AppError::NotFound(Missing::SegmentRecords { block: self.block, start })),
            )
        } else {
            Step::Done(
                Ok(
                    SegmentReportModel {
                        kind: self.kind,
                        block: self.block,
                        start,
                        last,
                        records: self.records,
                        missing: self.missing,
                    },
                ),
            )
        }
    }

    /// The scan when record `next` of `start..=last` is due: the record is
    /// asked for, or the scan is over.
    pub open spec fn at_record(self, start: u64, last: u64, next: int) -> SegmentScanModelStep {
        if next <= last {
            Step::Ask(
                Request::Record(self.kind, next as u64),
                SegmentScanModel {
                    stage: SegmentScanStage::Record { start, last, next: next as u64 },
                    ..self
                },
            )
        } else {
            self.end(start, last)
        }
    }

    /// The move that follows `reply`. The scan begins at the record number
    /// that the segment declares as its first, not at that of the block,
    /// and walks on to the one it declares as its last. A record that is not
    /// there is noted and the scan goes on; a read that fails ends it with
    /// the failure. A scan that saw no record at all, for want of a declared
    /// last record too, ends in an error that names the block and the record
    /// number it began at.
    pub open spec fn fed(self, reply: Reply) -> SegmentScanModelStep {
        match self.stage {
            SegmentScanStage::Segment => match reply {
                Reply::Segment { start, last } => match last {
                    Some(number) => self.at_record(
                        scan_start(start),
                        number,
                        scan_start(start) as int,
                    ),
                    None => Step::Done(
                        Err(
                            AppError::NotFound(
                                Missing::SegmentRecords {
                                    block: self.block,
                                    start: scan_start(start),
                                },
                            ),
                        ),
                    ),
                },
                Reply::NotFound => Step::Done(
                    Err(AppError::NotFound(Missing::Segment { block: self.block })),
                ),
                _ => Step::Done(Err(reply.failure(Request::Segment(self.kind, self.block)))),
            },
            SegmentScanStage::Record { start, last, next } => if is_record(reply, self.kind) {
                SegmentScanModel {
                    records: self.records.push(reply->Record_0),
                    ..self
                }.at_record(start, last, next + 1)
            } else if reply is NotFound {
                SegmentScanModel { missing: self.missing.push(next), ..self }.at_record(
                    start,
                    last,
                    next + 1,
                )
            } else {
                Step::Done(Err(reply.failure(Request::Record(self.kind, next))))
            },
        }
    }

    /// `fed` as a function value, for [`drive`].
    pub open spec fn resume() -> spec_fn(SegmentScanModel, Reply) -> SegmentScanModelStep {
        |state: SegmentScanModel, reply: Reply| state.fed(reply)
    }
}

impl SegmentScan {
    fn finish(self, start: u64, last: u64) -> (step: SegmentScanStep)
        ensures
            segment_scan_view(step) == self@.end(start, last),
    {
        if self.records.len() == 0 {
            Step::Done(
                Err(AppError::NotFound(Missing::SegmentRecords { block: self.block, start })),
            )
        } else {
            Step::Done(
                Ok(
                    SegmentReport {
                        kind: self.kind,
                        block: self.block,
                        start,
                        last,
                        records: self.records,
                        missing: self.missing,
                    },
                ),
            )
        }
    }

    fn next_record(self, start: u64, last: u64, next: u64) -> (step: SegmentScanStep)
        ensures
            segment_scan_view(step) == self@.at_record(start, last, next as int),
    {
        if next <= last {
            let request = Request::Record(self.kind, next);
            let mut state = self;
            state.stage = SegmentScanStage::Record { start, last, next };
            Step::Ask(request, state)
        } else {
            self.finish(start, last)
        }
    }

    fn advance(self, start: u64, last: u64, next: u64) -> (step: SegmentScanStep)
        ensures
            segment_scan_view(step) == self@.at_record(start, last, next + 1),
    {
        if next < last {
            self.next_record(start, last, next + 1)
        } else {
            self.finish(start, last)
        }
    }

    /// Takes the reply to the read that was asked for and says what comes
    /// next.
    pub fn feed(self, reply: Reply) -> (step: SegmentScanStep)
        ensures
            segment_scan_view(step) == self@.fed(reply),
    {
        match self.stage {
            SegmentScanStage::Segment => match reply {
                Reply::Segment { start, last } => {
                    let from: u64 = match start {
                        Some(number) => number,
                        None => 0,
                    };
                    match last {
                        Some(number) => self.next_record(from, number, from),
                        None => Step::Done(
                            Err(
                                AppError::NotFound(
                                    Missing::SegmentRecords { block: self.block, start: from },
                                ),
                            ),
                        ),
                    }
                },
                Reply::NotFound => Step::Done(
                    Err(AppError::NotFound(Missing::Segment { block: self.block })),
                ),
                other => Step::Done(
                    Err(other.into_failure(Request::Segment(self.kind, self.block))),
                ),
            },
            SegmentScanStage::Record { start, last, next } => {
                let kind = self.kind;
                match reply {
                    Reply::Record(record) => {
                        if has_kind(&record, kind) {
                            let mut state = self;
                            state.records.push(record);
                            state.advance(start, last, next)
                        } else {
                            Step::Done(
                                Err(
                                    Reply::Record(record).into_failure(
                                        Request::Record(kind, next),
                                    ),
                                ),
                            )
                        }
                    },
                    Reply::NotFound => {
                        let mut state = self;
                        state.missing.push(next);
                        state.advance(start, last, next)
                    },
                    other => Step::Done(Err(other.into_failure(Request::Record(kind, next)))),
                }
            },
        }
    }
}

/// Begins the scan of the whole segment of category `kind` that holds
/// block `block_in_segment`; [`SegmentScan::feed`] goes on.
pub fn scan_segment(kind: SegmentKind, block_in_segment: u64) -> (step: SegmentScanStep)
    ensures
        segment_scan_view(step) == SegmentScanModel::begin(kind, block_in_segment),
{
    Step::Ask(
        Request::Segment(kind, block_in_segment),
        SegmentScan {
            kind,
            block: block_in_segment,
            stage: SegmentScanStage::Segment,
            records: Vec::new(),
            missing: Vec::new(),
        },
    )
}

/// Begins the scan of all receipts of the segment that holds block
/// `block_in_segment`; [`SegmentScan::feed`] goes on.
pub fn test_receipts(block_in_segment: u64) -> (step: SegmentScanStep)
    ensures
        segment_scan_view(step) == SegmentScanModel::begin(
            SegmentKind::Receipts,
            block_in_segment,
        ),
{
    scan_segment(SegmentKind::Receipts, block_in_segment)
}

/// The records of category `kind` that `store` holds under the numbers
/// `next..end`, in ascending order.
pub open spec fn found_in(
    store: spec_fn(Request) -> Reply,
    kind: SegmentKind,
    next: int,
    end: int,
) -> Seq<Record>
    decreases end - next,
{
    if next >= end {
        Seq::empty()
    } else if is_record(store(Request::Record(kind, next as u64)), kind) {
        seq![store(Request::Record(kind, next as u64))->Record_0] + found_in(
            store,
            kind,
            next + 1,
            end,
        )
    } else {
        found_in(store, kind, next + 1, end)
    }
}

/// The numbers in `next..end` under which `store` holds no record.
pub open spec fn missing_in(
    store: spec_fn(Request) -> Reply,
    kind: SegmentKind,
    next: int,
    end: int,
) -> Seq<u64>
    decreases end - next,
{
    if next >= end {
        Seq::empty()
    } else if store(Request::Record(kind, next as u64)) is NotFound {
        seq![next as u64] + missing_in(store, kind, next + 1, end)
    } else {
        missing_in(store, kind, next + 1, end)
    }
}

/// A scan whose record reads from `next` on are all answered with a record
/// or with nothing ends with the records found and the numbers missed so
/// far, followed by those of `next..end`.
pub proof fn lemma_records_run(
    store: spec_fn(Request) -> Reply,
    state: BlockScanModel,
    first: u64,
    end: u64,
    next: int,
    fuel: nat,
)
    requires
        first <= next <= end,
        fuel >= end - next,
        forall|number: u64|
            next <= number < end ==> is_record(
                #[trigger] store(Request::Record(state.kind, number)),
                state.kind,
            ) || store(Request::Record(state.kind, number)) is NotFound,
    ensures
        drive(state.at_record(first, end, next), BlockScanModel::resume(), store, fuel) == Some(
            if (state.records + found_in(store, state.kind, next, end as int)).len() == 0 {
                Err::<ScanReportModel, AppError>(
                    AppError::NotFound(Missing::Records { block: state.block, first, end }),
                )
            } else {
                Ok::<ScanReportModel, AppError>(
                    ScanReportModel {
                        kind: state.kind,
                        block: state.block,
                        first,
                        end,
                        records: state.records + found_in(store, state.kind, next, end as int),
                        missing: state.missing + missing_in(store, state.kind, next, end as int),
                    },
                )
            },
        ),
    decreases end - next,
{
    if next < end {
        let request = Request::Record(state.kind, next as u64);
        let reply = store(request);
        let waiting = BlockScanModel {
            stage: BlockScanStage::Record { first, end, next: next as u64 },
            ..state
        };
        assert(drive(state.at_record(first, end, next), BlockScanModel::resume(), store, fuel)
            == drive(waiting.fed(reply), BlockScanModel::resume(), store, (fuel - 1) as nat));
        if is_record(reply, state.kind) {
            let longer = BlockScanModel { records: state.records.push(reply->Record_0), ..state };
            assert(waiting.fed(reply) == longer.at_record(first, end, next + 1));
            lemma_records_run(store, longer, first, end, next + 1, (fuel - 1) as nat);
            assert(longer.records + found_in(store, state.kind, next + 1, end as int)
                =~= state.records + found_in(store, state.kind, next, end as int));
        } else {
            let longer = BlockScanModel { missing: state.missing.push(next as u64), ..state };
            assert(waiting.fed(reply) == longer.at_record(first, end, next + 1));
            lemma_records_run(store, longer, first, end, next + 1, (fuel - 1) as nat);
            assert(longer.missing + missing_in(store, state.kind, next + 1, end as int)
                =~= state.missing + missing_in(store, state.kind, next, end as int));
        }
    } else {
        assert(state.records + found_in(store, state.kind, next, end as int) =~= state.records);
        assert(state.missing + missing_in(store, state.kind, next, end as int) =~= state.missing);
    }
}

/// Every record number of a range is either found or missed: the two lists
/// of a scan together are as long as the range.
pub proof fn lemma_found_and_missing_cover(
    store: spec_fn(Request) -> Reply,
    kind: SegmentKind,
    next: int,
    end: int,
)
    requires
        0 <= next <= end <= u64::MAX + 1,
        forall|number: u64|
            next <= number < end ==> is_record(
                #[trigger] store(Request::Record(kind, number)),
                kind,
            ) || store(Request::Record(kind, number)) is NotFound,
    ensures
        found_in(store, kind, next, end).len() + missing_in(store, kind, next, end).len() == end
            - next,
    decreases end - next,
{
    if next < end {
        assert(is_record(store(Request::Record(kind, next as u64)), kind) || store(
            Request::Record(kind, next as u64),
        ) is NotFound);
        lemma_found_and_missing_cover(store, kind, next + 1, end);
    }
}

/// The scan of a block tolerates missing records: where the block has body
/// indices `first..end`, its segment is there and each record read is
/// answered with a record or with nothing, the scan ends with exactly the
/// records that are there, in order, and with the numbers of those that are
/// not, and the two together are as many as the block has records. Only
/// where not one record is there does it end in an error, which names the
/// block and the range.
pub proof fn law_scan_skips_missing_records(
    store: spec_fn(Request) -> Reply,
    kind: SegmentKind,
    block: u64,
    fuel: nat,
)
    requires
        store(Request::BodyIndices(block)) is BodyIndices,
        store(Request::BodyIndices(block))->BodyIndices_0.end() <= u64::MAX,
        store(Request::Segment(kind, block)) is Segment,
        forall|number: u64|
            is_record(#[trigger] store(Request::Record(kind, number)), kind) || store(
                Request::Record(kind, number),
            ) is NotFound,
        fuel >= store(Request::BodyIndices(block))->BodyIndices_0.count() + 2,
    ensures
        ({
            let indices = store(Request::BodyIndices(block))->BodyIndices_0;
            let first = indices.first();
            let end = indices.end() as u64;
            let found = found_in(store, kind, first as int, end as int);
            let missed = missing_in(store, kind, first as int, end as int);
            &&& found.len() + missed.len() == indices.count()
            &&& drive(BlockScanModel::begin(kind, block), BlockScanModel::resume(), store, fuel)
                == Some(
                if found.len() == 0 {
                    Err::<ScanReportModel, AppError>(
                        AppError::NotFound(Missing::Records { block, first, end }),
                    )
                } else {
                    Ok::<ScanReportModel, AppError>(
                        ScanReportModel {
                            kind,
                            block,
                            first,
                            end,
                            records: found,
                            missing: missed,
                        },
                    )
                },
            )
        }),
{
    let indices = store(Request::BodyIndices(block))->BodyIndices_0;
    let first = indices.first();
    let end = indices.end() as u64;
    let start = BlockScanModel {
        kind,
        block,
        stage: BlockScanStage::Indices,
        records: Seq::empty(),
        missing: Seq::empty(),
    };
    let opened = BlockScanModel { stage: BlockScanStage::Segment { first, end }, ..start };
    assert(drive(BlockScanModel::begin(kind, block), BlockScanModel::resume(), store, fuel)
        == drive(
        start.fed(store(Request::BodyIndices(block))),
        BlockScanModel::resume(),
        store,
        (fuel - 1) as nat,
    ));
    assert(start.fed(store(Request::BodyIndices(block))) == Step::<
        BlockScanModel,
        Result<ScanReportModel, AppError>,
    >::Ask(Request::Segment(kind, block), opened));
    assert(drive(
        start.fed(store(Request::BodyIndices(block))),
        BlockScanModel::resume(),
        store,
        (fuel - 1) as nat,
    ) == drive(
        opened.fed(store(Request::Segment(kind, block))),
        BlockScanModel::resume(),
        store,
        (fuel - 2) as nat,
    ));
    lemma_records_run(store, opened, first, end, first as int, (fuel - 2) as nat);
    lemma_found_and_missing_cover(store, kind, first as int, end as int);
    assert(opened.records + found_in(store, kind, first as int, end as int) =~= found_in(
        store,
        kind,
        first as int,
        end as int,
    ));
    assert(opened.missing + missing_in(store, kind, first as int, end as int) =~= missing_in(
        store,
        kind,
        first as int,
        end as int,
    ));
}

/// A scan of a segment whose record reads from `next` on are all answered
/// with a record or with nothing ends with the records found and the numbers
/// missed so far, followed by those of `next..=last`.
pub proof fn lemma_segment_runs(
    store: spec_fn(Request) -> Reply,
    state: SegmentScanModel,
    start: u64,
    last: u64,
    next: int,
    fuel: nat,
)
    requires
        start <= next <= last + 1,
        fuel >= last + 1 - next,
        forall|number: u64|
            next <= number <= last ==> is_record(
                #[trigger] store(Request::Record(state.kind, number)),
                state.kind,
            ) || store(Request::Record(state.kind, number)) is NotFound,
    ensures
        drive(state.at_record(start, last, next), SegmentScanModel::resume(), store, fuel)
            == Some(
            if (state.records + found_in(store, state.kind, next, last + 1)).len() == 0 {
                Err::<SegmentReportModel, AppError>(
                    AppError::NotFound(Missing::SegmentRecords { block: state.block, start }),
                )
            } else {
                Ok::<SegmentReportModel, AppError>(
                    SegmentReportModel {
                        kind: state.kind,
                        block: state.block,
                        start,
                        last,
                        records: state.records + found_in(store, state.kind, next, last + 1),
                        missing: state.missing + missing_in(store, state.kind, next, last + 1),
                    },
                )
            },
        ),
    decreases last + 1 - next,
{
    if next <= last {
        let request = Request::Record(state.kind, next as u64);
        let reply = store(request);
        let waiting = SegmentScanModel {
            stage: SegmentScanStage::Record { start, last, next: next as u64 },
            ..state
        };
        assert(drive(state.at_record(start, last, next), SegmentScanModel::resume(), store, fuel)
            == drive(waiting.fed(reply), SegmentScanModel::resume(), store, (fuel - 1) as nat));
        if is_record(reply, state.kind) {
            let longer = SegmentScanModel {
                records: state.records.push(reply->Record_0),
                ..state
            };
            assert(waiting.fed(reply) == longer.at_record(start, last, next + 1));
            lemma_segment_runs(store, longer, start, last, next + 1, (fuel - 1) as nat);
            assert(longer.records + found_in(store, state.kind, next + 1, last + 1)
                =~= state.records + found_in(store, state.kind, next, last + 1));
        } else {
            let longer = SegmentScanModel { missing: state.missing.push(next as u64), ..state };
            assert(waiting.fed(reply) == longer.at_record(start, last, next + 1));
            lemma_segment_runs(store, longer, start, last, next + 1, (fuel - 1) as nat);
            assert(longer.missing + missing_in(store, state.kind, next + 1, last + 1)
                =~= state.missing + missing_in(store, state.kind, next, last + 1));
        }
    } else {
        assert(state.records + found_in(store, state.kind, next, last + 1) =~= state.records);
        assert(state.missing + missing_in(store, state.kind, next, last + 1) =~= state.missing);
    }
}

/// The scan of a whole segment tolerates missing records. It begins at the
/// record number that the segment declares as its first, or at 0 where it
/// declares none, and goes on to the one it declares as its last, whatever
/// is missing in between: where each record read is answered with a record
/// or with nothing, the scan ends with exactly the records that are there,
/// in order, and with the numbers of those that are not, and the two
/// together are as many as the segment declares. Only where not one record
/// is there does it end in an error, which names the block and the record
/// number at which the scan began.
pub proof fn law_segment_scan_skips_missing_records(
    store: spec_fn(Request) -> Reply,
    kind: SegmentKind,
    block: u64,
    fuel: nat,
)
    requires
        store(Request::Segment(kind, block)) is Segment,
        forall|number: u64|
            is_record(#[trigger] store(Request::Record(kind, number)), kind) || store(
                Request::Record(kind, number),
            ) is NotFound,
        ({
            let from = scan_start(store(Request::Segment(kind, block))->start);
            let end = scan_end(
                store(Request::Segment(kind, block))->start,
                store(Request::Segment(kind, block))->last,
            );
            from <= end && fuel >= end - from + 1
        }),
    ensures
        ({
            let from = scan_start(store(Request::Segment(kind, block))->start);
            let end = scan_end(
                store(Request::Segment(kind, block))->start,
                store(Request::Segment(kind, block))->last,
            );
            let found = found_in(store, kind, from as int, end);
            let missed = missing_in(store, kind, from as int, end);
            &&& found.len() + missed.len() == end - from
            &&& drive(SegmentScanModel::begin(kind, block), SegmentScanModel::resume(), store, fuel)
                == Some(
                if found.len() == 0 {
                    Err::<SegmentReportModel, AppError>(
                        AppError::NotFound(Missing::SegmentRecords { block, start: from }),
                    )
                } else {
                    Ok::<SegmentReportModel, AppError>(
                        SegmentReportModel {
                            kind,
                            block,
                            start: from,
                            last: (end - 1) as u64,
                            records: found,
                            missing: missed,
                        },
                    )
                },
            )
        }),
{
    let reply = store(Request::Segment(kind, block));
    let from = scan_start(reply->start);
    let end = scan_end(reply->start, reply->last);
    let opening = SegmentScanModel {
        kind,
        block,
        stage: SegmentScanStage::Segment,
        records: Seq::empty(),
        missing: Seq::empty(),
    };
    assert(drive(SegmentScanModel::begin(kind, block), SegmentScanModel::resume(), store, fuel)
        == drive(opening.fed(reply), SegmentScanModel::resume(), store, (fuel - 1) as nat));
    lemma_found_and_missing_cover(store, kind, from as int, end);
    match reply->last {
        Some(last) => {
            lemma_segment_runs(store, opening, from, last, from as int, (fuel - 1) as nat);
            assert(opening.records + found_in(store, kind, from as int, end) =~= found_in(
                store,
                kind,
                from as int,
                end,
            ));
            assert(opening.missing + missing_in(store, kind, from as int, end) =~= missing_in(
                store,
                kind,
                from as int,
                end,
            ));
        },
        None => {},
    }
}

} // verus!
