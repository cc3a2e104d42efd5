use bsc_scan::archive::{
    scan_block, scan_segment, test_receipts, test_transactions, BlockScanStep, ScanReport,
    SegmentReport, SegmentScanStep,
};
use bsc_scan::error::{AppError, Cause, Missing};
use bsc_scan::model::{BlockBodyIndices, ReceiptSummary, Transaction, TxCommon, TxType};
use bsc_scan::primitives::{B256, U256};
use bsc_scan::store::{Record, Reply, Request, SegmentKind, Step};

fn transaction(record: u64) -> Record {
    Record::Transaction(Transaction::Legacy {
        common: TxCommon {
            hash: B256([record as u8; 32]),
            nonce: record,
            gas_limit: 21_000,
            to: None,
            value: U256::from_u64(record),
            input: Vec::new(),
        },
        gas_price: 1,
    })
}

fn receipt(record: u64) -> Record {
    Record::Receipt(ReceiptSummary {
        success: true,
        cumulative_gas_used: record,
        log_count: 0,
        tx_type: TxType::Eip1559,
    })
}

fn run_block(mut step: BlockScanStep, store: &dyn Fn(&Request) -> Reply, asked: &mut Vec<Request>) -> Result<ScanReport, AppError> {
    loop {
        match step {
            Step::Done(outcome) => return outcome,
            Step::Ask(request, state) => {
                asked.push(request);
                step = state.feed(store(&request));
            }
        }
    }
}

fn run_segment(mut step: SegmentScanStep, store: &dyn Fn(&Request) -> Reply, asked: &mut Vec<Request>) -> Result<SegmentReport, AppError> {
    loop {
        match step {
            Step::Done(outcome) => return outcome,
            Step::Ask(request, state) => {
                asked.push(request);
                step = state.feed(store(&request));
            }
        }
    }
}

/// Block 5 has the records 50..60; the segment starts at record 40.
fn block_five(present: &'static dyn Fn(u64) -> bool) -> impl Fn(&Request) -> Reply {
    move |request| match *request {
        Request::BodyIndices(5) => Reply::BodyIndices(BlockBodyIndices::new(50, 10).unwrap()),
        Request::Segment(_, 5) => Reply::Segment { start: Some(40), last: Some(99) },
        Request::Record(SegmentKind::Transactions, n) if present(n) => Reply::Record(transaction(n)),
        Request::Record(SegmentKind::Receipts, n) if present(n) => Reply::Record(receipt(n)),
        _ => Reply::NotFound,
    }
}

#[test]
fn a_missing_record_is_skipped_not_fatal() {
    let store = block_five(&|n| (40..70).contains(&n) && n != 55);
    let mut asked = Vec::new();
    let report = run_block(test_transactions(5), &store, &mut asked).unwrap();
    assert_eq!(report.records.len(), 9);
    assert_eq!(report.missing, vec![55]);
    assert_eq!((report.block, report.first, report.end), (5, 50, 60));
    assert_eq!(report.kind, SegmentKind::Transactions);
    assert!(!report.is_complete());
    let expected: Vec<Record> = (50..60).filter(|n| *n != 55).map(transaction).collect();
    assert_eq!(report.records, expected);
    // Only the block's own records are read, each by its absolute number.
    let mut expected_requests = vec![Request::BodyIndices(5), Request::Segment(SegmentKind::Transactions, 5)];
    expected_requests.extend((50..60).map(|n| Request::Record(SegmentKind::Transactions, n)));
    assert_eq!(asked, expected_requests);
}

#[test]
fn a_range_entirely_absent_is_an_error_naming_the_range() {
    let store = block_five(&|n| n < 50 || n >= 60);
    let mut asked = Vec::new();
    assert_eq!(
        run_block(test_transactions(5), &store, &mut asked),
        Err(AppError::NotFound(Missing::Records { block: 5, first: 50, end: 60 }))
    );
    assert_eq!(asked.len(), 12);
}

#[test]
fn a_full_block_scan_is_complete() {
    let store = block_five(&|_| true);
    let mut asked = Vec::new();
    let report = run_block(scan_block(SegmentKind::Receipts, 5), &store, &mut asked).unwrap();
    assert_eq!(report.records, (50..60).map(receipt).collect::<Vec<_>>());
    assert!(report.missing.is_empty());
    assert!(report.is_complete());
}

#[test]
fn an_empty_block_observes_nothing_and_fails() {
    let store = |request: &Request| match *request {
        Request::BodyIndices(8) => Reply::BodyIndices(BlockBodyIndices::new(77, 0).unwrap()),
        Request::Segment(_, 8) => Reply::Segment { start: None, last: None },
        _ => Reply::NotFound,
    };
    let mut asked = Vec::new();
    assert_eq!(
        run_block(test_transactions(8), &store, &mut asked),
        Err(AppError::NotFound(Missing::Records { block: 8, first: 77, end: 77 }))
    );
    assert_eq!(asked.len(), 2);
}

#[test]
fn block_without_body_indices_cannot_be_scanned() {
    let store = |_: &Request| Reply::NotFound;
    let mut asked = Vec::new();
    assert_eq!(
        run_block(test_transactions(3), &store, &mut asked),
        Err(AppError::NotFound(Missing::BodyIndices { block: 3 }))
    );
    assert_eq!(asked, vec![Request::BodyIndices(3)]);
}

#[test]
fn block_without_segment_cannot_be_scanned() {
    let store = |request: &Request| match *request {
        Request::BodyIndices(3) => Reply::BodyIndices(BlockBodyIndices::new(1, 2).unwrap()),
        _ => Reply::NotFound,
    };
    let mut asked = Vec::new();
    assert_eq!(
        run_block(test_transactions(3), &store, &mut asked),
        Err(AppError::NotFound(Missing::Segment { block: 3 }))
    );
}

#[test]
fn a_failed_record_read_ends_the_scan() {
    let store = |request: &Request| match *request {
        Request::BodyIndices(5) => Reply::BodyIndices(BlockBodyIndices::new(50, 10).unwrap()),
        Request::Segment(_, 5) => Reply::Segment { start: Some(40), last: Some(99) },
        Request::Record(_, 53) => Reply::Failed("bad page".to_string()),
        Request::Record(_, n) => Reply::Record(transaction(n)),
        _ => Reply::NotFound,
    };
    let mut asked = Vec::new();
    assert_eq!(
        run_block(test_transactions(5), &store, &mut asked),
        Err(AppError::Store {
            request: Request::Record(SegmentKind::Transactions, 53),
            cause: Cause::Failed("bad page".to_string()),
        })
    );
    assert_eq!(asked.last(), Some(&Request::Record(SegmentKind::Transactions, 53)));
}

#[test]
fn a_record_of_the_other_kind_is_no_answer() {
    let store = |request: &Request| match *request {
        Request::BodyIndices(5) => Reply::BodyIndices(BlockBodyIndices::new(50, 1).unwrap()),
        Request::Segment(_, 5) => Reply::Segment { start: Some(40), last: Some(99) },
        Request::Record(_, n) => Reply::Record(receipt(n)),
        _ => Reply::NotFound,
    };
    let mut asked = Vec::new();
    assert_eq!(
        run_block(test_transactions(5), &store, &mut asked),
        Err(AppError::Store {
            request: Request::Record(SegmentKind::Transactions, 50),
            cause: Cause::Unexpected,
        })
    );
}

#[test]
fn a_scan_at_the_end_of_the_record_space_stops() {
    let store = |request: &Request| match *request {
        Request::BodyIndices(9) => Reply::BodyIndices(BlockBodyIndices::new(u64::MAX - 2, 2).unwrap()),
        Request::Segment(_, 9) => Reply::Segment { start: Some(0), last: Some(u64::MAX) },
        Request::Record(_, n) => Reply::Record(transaction(n)),
        _ => Reply::NotFound,
    };
    let mut asked = Vec::new();
    let report = run_block(test_transactions(9), &store, &mut asked).unwrap();
    assert_eq!(report.records.len(), 2);
    assert_eq!(report.end, u64::MAX);
}

#[test]
fn segment_scan_starts_at_the_declared_record() {
    // The segment declares the records 40..=46; the block asked for is
    // anywhere in the segment.
    let store = |request: &Request| match *request {
        Request::Segment(SegmentKind::Receipts, 5) => Reply::Segment { start: Some(40), last: Some(46) },
        Request::Record(SegmentKind::Receipts, n) if (40..47).contains(&n) => Reply::Record(receipt(n)),
        _ => Reply::NotFound,
    };
    let mut asked = Vec::new();
    let report = run_segment(test_receipts(5), &store, &mut asked).unwrap();
    assert_eq!((report.start, report.last), (40, 46));
    assert_eq!(report.block, 5);
    assert_eq!(report.kind, SegmentKind::Receipts);
    assert_eq!(report.records, (40..47).map(receipt).collect::<Vec<_>>());
    assert!(report.missing.is_empty());
    assert!(report.is_complete());
    let mut expected = vec![Request::Segment(SegmentKind::Receipts, 5)];
    expected.extend((40..47).map(|n| Request::Record(SegmentKind::Receipts, n)));
    assert_eq!(asked, expected);
}

#[test]
fn segment_scan_goes_on_past_a_missing_record() {
    // The segment declares the records 20..=29, of which 25 is not there.
    let store = |request: &Request| match *request {
        Request::Segment(SegmentKind::Receipts, 3) => Reply::Segment { start: Some(20), last: Some(29) },
        Request::Record(SegmentKind::Receipts, n) if (20..30).contains(&n) && n != 25 => {
            Reply::Record(receipt(n))
        }
        _ => Reply::NotFound,
    };
    let mut asked = Vec::new();
    let report = run_segment(test_receipts(3), &store, &mut asked).unwrap();
    assert_eq!(report.records.len(), 9);
    assert_eq!(
        report.records,
        (20..30).filter(|n| *n != 25).map(receipt).collect::<Vec<_>>()
    );
    assert_eq!(report.missing, vec![25]);
    assert!(!report.is_complete());
    // Every record of the segment is read, the missing one and those after it too.
    let mut expected = vec![Request::Segment(SegmentKind::Receipts, 3)];
    expected.extend((20..30).map(|n| Request::Record(SegmentKind::Receipts, n)));
    assert_eq!(asked, expected);
}

#[test]
fn segment_scan_notes_every_missing_record() {
    // Of the records 0..=5 only 1 and 4 are there.
    let store = |request: &Request| match *request {
        Request::Segment(_, 1) => Reply::Segment { start: None, last: Some(5) },
        Request::Record(_, n) if n == 1 || n == 4 => Reply::Record(transaction(n)),
        _ => Reply::NotFound,
    };
    let mut asked = Vec::new();
    let report = run_segment(scan_segment(SegmentKind::Transactions, 1), &store, &mut asked).unwrap();
    assert_eq!(report.start, 0);
    assert_eq!(report.records, vec![transaction(1), transaction(4)]);
    assert_eq!(report.missing, vec![0, 2, 3, 5]);
    assert_eq!(asked.len(), 7);
}

#[test]
fn segment_scan_without_declared_start_begins_at_zero() {
    let store = |request: &Request| match *request {
        Request::Segment(_, 1) => Reply::Segment { start: None, last: Some(2) },
        Request::Record(_, n) if n < 3 => Reply::Record(transaction(n)),
        _ => Reply::NotFound,
    };
    let mut asked = Vec::new();
    let report = run_segment(scan_segment(SegmentKind::Transactions, 1), &store, &mut asked).unwrap();
    assert_eq!(report.start, 0);
    assert_eq!(report.records, (0..3).map(transaction).collect::<Vec<_>>());
}

#[test]
fn segment_scan_that_sees_no_record_is_an_error() {
    // Every declared record is missing: the scan reads them all, then fails.
    let store = |request: &Request| match *request {
        Request::Segment(_, 1) => Reply::Segment { start: Some(10), last: Some(12) },
        _ => Reply::NotFound,
    };
    let mut asked = Vec::new();
    assert_eq!(
        run_segment(test_receipts(1), &store, &mut asked),
        Err(AppError::NotFound(Missing::SegmentRecords { block: 1, start: 10 }))
    );
    assert_eq!(asked.len(), 4);
    // A segment that declares no last record has none to read.
    let store = |request: &Request| match *request {
        Request::Segment(_, 7) => Reply::Segment { start: None, last: None },
        Request::Record(_, n) => Reply::Record(transaction(n)),
        _ => Reply::NotFound,
    };
    let mut asked = Vec::new();
    assert_eq!(
        run_segment(scan_segment(SegmentKind::Transactions, 7), &store, &mut asked),
        Err(AppError::NotFound(Missing::SegmentRecords { block: 7, start: 0 }))
    );
    assert_eq!(asked.len(), 1);
    // So has one whose last record lies before its first.
    let store = |request: &Request| match *request {
        Request::Segment(_, 7) => Reply::Segment { start: Some(9), last: Some(3) },
        Request::Record(_, n) => Reply::Record(transaction(n)),
        _ => Reply::NotFound,
    };
    let mut asked = Vec::new();
    assert_eq!(
        run_segment(scan_segment(SegmentKind::Transactions, 7), &store, &mut asked),
        Err(AppError::NotFound(Missing::SegmentRecords { block: 7, start: 9 }))
    );
    assert_eq!(asked.len(), 1);
}

#[test]
fn segment_scan_of_a_single_record_ends_well() {
    let store = |request: &Request| match *request {
        Request::Segment(_, 1) => Reply::Segment { start: Some(10), last: Some(10) },
        Request::Record(_, 10) => Reply::Record(receipt(10)),
        _ => Reply::NotFound,
    };
    let mut asked = Vec::new();
    let report = run_segment(test_receipts(1), &store, &mut asked).unwrap();
    assert_eq!(report.records, vec![receipt(10)]);
    assert_eq!(asked.len(), 2);
}

#[test]
fn segment_scan_ends_at_the_top_of_the_record_space() {
    let store = |request: &Request| match *request {
        Request::Segment(_, 1) => Reply::Segment { start: Some(u64::MAX - 1), last: Some(u64::MAX) },
        Request::Record(_, n) if n == u64::MAX => Reply::Record(receipt(n)),
        _ => Reply::NotFound,
    };
    let mut asked = Vec::new();
    let report = run_segment(test_receipts(1), &store, &mut asked).unwrap();
    assert_eq!(report.records, vec![receipt(u64::MAX)]);
    assert_eq!(report.missing, vec![u64::MAX - 1]);
    assert_eq!(asked.len(), 3);
}

#[test]
fn segment_scan_failures_are_propagated() {
    let missing = |_: &Request| Reply::NotFound;
    let mut asked = Vec::new();
    assert_eq!(
        run_segment(test_receipts(4), &missing, &mut asked),
        Err(AppError::NotFound(Missing::Segment { block: 4 }))
    );
    let broken = |request: &Request| match *request {
        Request::Segment(_, 4) => Reply::Segment { start: Some(2), last: Some(8) },
        Request::Record(_, 2) => Reply::Record(receipt(2)),
        _ => Reply::Failed("torn".to_string()),
    };
    let mut asked = Vec::new();
    assert_eq!(
        run_segment(test_receipts(4), &broken, &mut asked),
        Err(AppError::Store {
            request: Request::Record(SegmentKind::Receipts, 3),
            cause: Cause::Failed("torn".to_string()),
        })
    );
    assert_eq!(asked.len(), 3);
    let unopenable = |_: &Request| Reply::Failed("locked".to_string());
    let mut asked = Vec::new();
    assert_eq!(
        run_segment(test_receipts(4), &unopenable, &mut asked),
        Err(AppError::Store {
            request: Request::Segment(SegmentKind::Receipts, 4),
            cause: Cause::Failed("locked".to_string()),
        })
    );
    // A record of the other kind is no answer.
    let mixed = |request: &Request| match *request {
        Request::Segment(_, 4) => Reply::Segment { start: Some(2), last: Some(8) },
        Request::Record(_, n) => Reply::Record(transaction(n)),
        _ => Reply::NotFound,
    };
    let mut asked = Vec::new();
    assert_eq!(
        run_segment(test_receipts(4), &mixed, &mut asked),
        Err(AppError::Store {
            request: Request::Record(SegmentKind::Receipts, 2),
            cause: Cause::Unexpected,
        })
    );
}
