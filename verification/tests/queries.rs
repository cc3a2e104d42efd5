use bsc_scan::analysis::{
    analyze_block, analyze_block_transactions_with_to, transaction_destinations, BlockAnalysisStep,
};
use bsc_scan::databases::{
    BlockData, BlockDataStep, BscDatabase, HeaderStatus, ReceiptStep, ReceiptsStep, StateAtBlock,
    TransactionsStep,
};
use bsc_scan::error::{AppError, Cause};
use bsc_scan::model::{
    AccountState, BlockBodyIndices, BlockHeader, ReceiptSummary, StorageSlot, Transaction,
    TxCommon, TxType,
};
use bsc_scan::primitives::{Address, B256, U256};
use bsc_scan::range::BlockRange;
use bsc_scan::scan_ct::{scan_block_contract_creations, CreationScanStep};
use bsc_scan::state::{AccountStep, StorageStep};
use bsc_scan::store::{Reply, Request, Step};

fn header(number: u64) -> BlockHeader {
    BlockHeader {
        number,
        hash: B256([number as u8; 32]),
        parent_hash: B256([number.wrapping_sub(1) as u8; 32]),
        timestamp: 1_600_000_000 + number,
        gas_used: 21_000 * number,
        state_root: B256([0xee; 32]),
    }
}

fn transaction(record: u64) -> Transaction {
    Transaction::Legacy {
        common: TxCommon {
            hash: B256([record as u8; 32]),
            nonce: record,
            gas_limit: 21_000,
            to: if record % 3 == 0 { None } else { Some(Address([record as u8; 20])) },
            value: U256::from_u64(record),
            input: Vec::new(),
        },
        gas_price: record as u128,
    }
}

fn receipt(record: u64) -> ReceiptSummary {
    ReceiptSummary {
        success: record % 2 == 0,
        cumulative_gas_used: 21_000 * (record + 1),
        log_count: record as usize,
        tx_type: TxType::Legacy,
    }
}

/// A store that holds blocks 10..=20; block `b` has `b - 10` transactions,
/// which stand from record `first_record(b)` on. Block 20 has a header but
/// no body.
fn first_record(block: u64) -> u64 {
    (10..block).map(|b| b - 10).sum()
}

fn answer(request: &Request) -> Reply {
    match *request {
        Request::BestBlockNumber => Reply::BlockNumber(20),
        Request::Header(n) if (10..=20).contains(&n) => Reply::Header(header(n)),
        Request::BodyIndices(n) if (10..20).contains(&n) => {
            Reply::BodyIndices(BlockBodyIndices::new(first_record(n), n - 10).unwrap())
        }
        Request::Transactions(n) if (10..20).contains(&n) => {
            Reply::Transactions((0..n - 10).map(|i| transaction(first_record(n) + i)).collect())
        }
        Request::Receipts(n) if (10..20).contains(&n) => {
            Reply::Receipts((0..n - 10).map(|i| receipt(first_record(n) + i)).collect())
        }
        Request::TransactionId(hash) if hash.0[0] < 45 && hash.0 == [hash.0[0]; 32] => {
            Reply::TransactionId(hash.0[0] as u64)
        }
        Request::Receipt(number) if number < 40 => Reply::Receipt(receipt(number)),
        Request::LatestState => Reply::State,
        Request::Account(address) if address.0[19] == 1 => Reply::Account(AccountState {
            balance: U256::from_u64(99),
            nonce: 3,
            code_present: true,
        }),
        Request::Storage(address, slot) if address.0[19] == 1 && slot.lo < 2 => {
            Reply::Storage(U256::from_u128(slot.lo * 7))
        }
        _ => Reply::NotFound,
    }
}

fn db() -> BscDatabase {
    BscDatabase::new(BlockRange { latest: 20, earliest: 10 })
}

fn run_block_data(mut step: BlockDataStep, asked: &mut Vec<Request>) -> Result<Option<BlockData>, AppError> {
    loop {
        match step {
            Step::Done(outcome) => return outcome,
            Step::Ask(request, state) => {
                asked.push(request);
                step = state.feed(answer(&request));
            }
        }
    }
}

fn run_transactions(mut step: TransactionsStep, asked: &mut Vec<Request>) -> Result<Vec<Transaction>, AppError> {
    loop {
        match step {
            Step::Done(outcome) => return outcome,
            Step::Ask(request, state) => {
                asked.push(request);
                step = state.feed_transactions(answer(&request));
            }
        }
    }
}

fn run_receipts(mut step: ReceiptsStep, asked: &mut Vec<Request>) -> Result<Vec<ReceiptSummary>, AppError> {
    loop {
        match step {
            Step::Done(outcome) => return outcome,
            Step::Ask(request, state) => {
                asked.push(request);
                step = state.feed_receipts(answer(&request));
            }
        }
    }
}

fn run_receipt(mut step: ReceiptStep) -> Result<Option<ReceiptSummary>, AppError> {
    loop {
        match step {
            Step::Done(outcome) => return outcome,
            Step::Ask(request, state) => step = state.feed(answer(&request)),
        }
    }
}

fn run_account(mut step: AccountStep, asked: &mut Vec<Request>) -> Result<Option<AccountState>, AppError> {
    loop {
        match step {
            Step::Done(outcome) => return outcome,
            Step::Ask(request, state) => {
                asked.push(request);
                step = state.feed(answer(&request));
            }
        }
    }
}

fn run_storage(mut step: StorageStep, asked: &mut Vec<Request>) -> Result<Option<StorageSlot>, AppError> {
    loop {
        match step {
            Step::Done(outcome) => return outcome,
            Step::Ask(request, state) => {
                asked.push(request);
                step = state.feed(answer(&request));
            }
        }
    }
}

fn run_analysis(mut step: BlockAnalysisStep) -> Result<Vec<bsc_scan::analysis::AnalyzedTx>, AppError> {
    loop {
        match step {
            Step::Done(outcome) => return outcome,
            Step::Ask(request, state) => step = state.feed(answer(&request)),
        }
    }
}

fn run_creations(mut step: CreationScanStep) -> Result<Vec<bool>, AppError> {
    loop {
        match step {
            Step::Done(outcome) => return outcome,
            Step::Ask(request, state) => step = state.feed(answer(&request)),
        }
    }
}

#[test]
fn new_keeps_the_detected_range() {
    let db = BscDatabase::new(BlockRange { latest: 20, earliest: 10 });
    assert_eq!(db, BscDatabase { latest_block: 20, earliest_available_block: 10 });
}

#[test]
fn below_earliest_nothing_is_asked() {
    let db = db();
    for block in [0u64, 1, 9] {
        assert_eq!(db.query_headers_with_blocknumber(block), Step::Done(Ok(None)));
        assert_eq!(db.query_block_order_transactions(block), Step::Done(Ok(Vec::new())));
        assert_eq!(db.get_receipts(block), Step::Done(Ok(Vec::new())));
        assert_eq!(db.test_header_by_number(block), Step::Done(HeaderStatus::BeforeEarliest));
        assert_eq!(db.test_state_at_block(block), StateAtBlock::BeforeEarliest);
    }
    assert_eq!(db.test_state_at_block(10), StateAtBlock::LatestOnly);
    assert_eq!(db.test_state_at_block(25), StateAtBlock::LatestOnly);
}

#[test]
fn block_data_reads_header_then_body_indices() {
    let mut asked = Vec::new();
    let data = run_block_data(db().query_headers_with_blocknumber(15), &mut asked).unwrap();
    assert_eq!(data, Some(BlockData { header: header(15), tx_count: 5 }));
    assert_eq!(asked, vec![Request::Header(15), Request::BodyIndices(15)]);
}

#[test]
fn header_without_body_counts_no_transactions() {
    let mut asked = Vec::new();
    let data = run_block_data(db().query_headers_with_blocknumber(20), &mut asked).unwrap();
    assert_eq!(data, Some(BlockData { header: header(20), tx_count: 0 }));
}

#[test]
fn unreadable_body_indices_are_an_error() {
    let step = db().query_headers_with_blocknumber(15);
    let Step::Ask(_, state) = step else { panic!("the header must be asked for") };
    let Step::Ask(request, state) = state.feed(Reply::Header(header(15))) else {
        panic!("the body indices must be asked for")
    };
    assert_eq!(request, Request::BodyIndices(15));
    assert_eq!(
        state.feed(Reply::Failed("corrupt".to_string())),
        Step::Done(Err(AppError::Store {
            request: Request::BodyIndices(15),
            cause: Cause::Failed("corrupt".to_string()),
        }))
    );
    // Data of another kind is no answer either.
    assert_eq!(
        state.feed(Reply::Header(header(15))),
        Step::Done(Err(AppError::Store {
            request: Request::BodyIndices(15),
            cause: Cause::Unexpected,
        }))
    );
    // Only indices that are not there leave the count at 0.
    assert_eq!(
        state.feed(Reply::NotFound),
        Step::Done(Ok(Some(BlockData { header: header(15), tx_count: 0 })))
    );
}

#[test]
fn missing_header_in_range_is_none() {
    let mut asked = Vec::new();
    assert_eq!(run_block_data(db().query_headers_with_blocknumber(21), &mut asked), Ok(None));
    assert_eq!(asked, vec![Request::Header(21)]);
}

#[test]
fn header_read_failure_is_propagated_with_its_context() {
    let Step::Ask(request, state) = db().query_headers_with_blocknumber(15) else {
        panic!("the header must be asked for")
    };
    assert_eq!(
        state.feed(Reply::Failed("io".to_string())),
        Step::Done(Err(AppError::Store { request, cause: Cause::Failed("io".to_string()) }))
    );
}

#[test]
fn transactions_follow_the_body_indices() {
    for block in 10u64..20 {
        let mut asked = Vec::new();
        let txs = run_transactions(db().query_block_order_transactions(block), &mut asked).unwrap();
        assert_eq!(txs.len() as u64, block - 10);
        for (index, tx) in txs.iter().enumerate() {
            assert_eq!(*tx, transaction(first_record(block) + index as u64));
        }
        assert_eq!(asked, vec![Request::BodyIndices(block), Request::Transactions(block)]);
    }
}

#[test]
fn block_without_body_has_no_transactions_and_no_receipts() {
    let mut asked = Vec::new();
    assert_eq!(run_transactions(db().query_block_order_transactions(20), &mut asked), Ok(Vec::new()));
    assert_eq!(asked, vec![Request::BodyIndices(20)]);
    let mut asked = Vec::new();
    assert_eq!(run_receipts(db().get_receipts(20), &mut asked), Ok(Vec::new()));
    assert_eq!(asked, vec![Request::BodyIndices(20)]);
}

#[test]
fn list_read_failures_are_propagated() {
    let Step::Ask(request, state) = db().query_block_order_transactions(12) else {
        panic!("the body indices must be asked for")
    };
    assert_eq!(
        state.feed_transactions(Reply::Failed("decode".to_string())),
        Step::Done(Err(AppError::Store { request, cause: Cause::Failed("decode".to_string()) }))
    );
    let Step::Ask(request, next) = state.feed_transactions(answer(&request)) else {
        panic!("the transactions must be asked for")
    };
    assert_eq!(request, Request::Transactions(12));
    assert_eq!(
        next.feed_transactions(Reply::Failed("decode".to_string())),
        Step::Done(Err(AppError::Store { request, cause: Cause::Failed("decode".to_string()) }))
    );
    assert_eq!(next.feed_transactions(Reply::NotFound), Step::Done(Ok(Vec::new())));
    // Data of another kind is no answer.
    assert_eq!(
        next.feed_transactions(Reply::Receipts(Vec::new())),
        Step::Done(Err(AppError::Store { request, cause: Cause::Unexpected }))
    );
}

#[test]
fn receipts_follow_the_body_indices() {
    let mut asked = Vec::new();
    let receipts = run_receipts(db().get_receipts(14), &mut asked).unwrap();
    assert_eq!(receipts, (0..4).map(|i| receipt(first_record(14) + i)).collect::<Vec<_>>());
    assert_eq!(asked, vec![Request::BodyIndices(14), Request::Receipts(14)]);
}

#[test]
fn receipt_by_hash_goes_through_the_record_number() {
    assert_eq!(run_receipt(db().get_receipt_by_hash(B256([7; 32]))), Ok(Some(receipt(7))));
    // A hash the store does not know.
    assert_eq!(run_receipt(db().get_receipt_by_hash(B256([200; 32]))), Ok(None));
    // A known hash whose record has no receipt.
    assert_eq!(run_receipt(db().get_receipt_by_hash(B256([42; 32]))), Ok(None));
    let Step::Ask(request, state) = db().get_receipt_by_hash(B256([7; 32])) else {
        panic!("the record number must be asked for")
    };
    assert_eq!(request, Request::TransactionId(B256([7; 32])));
    assert_eq!(
        state.feed(Reply::Failed("io".to_string())),
        Step::Done(Err(AppError::Store { request, cause: Cause::Failed("io".to_string()) }))
    );
}

#[test]
fn account_and_storage_read_a_fresh_snapshot() {
    let mut known = [0u8; 20];
    known[19] = 1;
    let mut asked = Vec::new();
    let account = run_account(db().get_account(Address(known)), &mut asked).unwrap();
    assert_eq!(
        account,
        Some(AccountState { balance: U256::from_u64(99), nonce: 3, code_present: true })
    );
    assert_eq!(asked, vec![Request::LatestState, Request::Account(Address(known))]);
    let mut asked = Vec::new();
    assert_eq!(run_account(db().get_account(Address::zero()), &mut asked), Ok(None));

    let mut asked = Vec::new();
    let slot = run_storage(db().get_storage(Address(known), U256::from_u64(1)), &mut asked).unwrap();
    assert_eq!(slot, Some(StorageSlot { key: U256::from_u64(1), value: U256::from_u64(7) }));
    assert_eq!(
        asked,
        vec![Request::LatestState, Request::Storage(Address(known), U256::from_u64(1))]
    );
    // A slot that is found with value zero is not an absent slot.
    let mut asked = Vec::new();
    let zero = run_storage(db().get_storage(Address(known), U256::from_u64(0)), &mut asked).unwrap();
    assert_eq!(zero, Some(StorageSlot { key: U256::from_u64(0), value: U256::from_u64(0) }));
    let mut asked = Vec::new();
    assert_eq!(run_storage(db().get_storage(Address(known), U256::from_u64(5)), &mut asked), Ok(None));
}

#[test]
fn snapshot_failure_ends_a_state_read() {
    let Step::Ask(request, state) = db().get_account(Address::zero()) else {
        panic!("the snapshot must be asked for")
    };
    assert_eq!(request, Request::LatestState);
    assert_eq!(
        state.feed(Reply::Failed("pruned".to_string())),
        Step::Done(Err(AppError::Store { request, cause: Cause::Failed("pruned".to_string()) }))
    );
}

#[test]
fn header_look_reports_without_failing() {
    let db = db();
    let Step::Ask(request, probe) = db.test_header_by_number(12) else {
        panic!("the header must be asked for")
    };
    assert_eq!(request, Request::Header(12));
    assert_eq!(probe.feed(Reply::Header(header(12))), Step::Done(HeaderStatus::Found(header(12))));
    assert_eq!(probe.feed(Reply::NotFound), Step::Done(HeaderStatus::NotFound));
    assert_eq!(
        probe.feed(Reply::Failed("io".to_string())),
        Step::Done(HeaderStatus::Unreadable(AppError::Store {
            request,
            cause: Cause::Failed("io".to_string())
        }))
    );
}

#[test]
fn repeating_a_query_gives_the_same_answer() {
    let db = db();
    for block in [5u64, 10, 13, 19, 20, 30] {
        let mut first_asked = Vec::new();
        let mut second_asked = Vec::new();
        let first = run_block_data(db.query_headers_with_blocknumber(block), &mut first_asked);
        let second = run_block_data(db.query_headers_with_blocknumber(block), &mut second_asked);
        assert_eq!(first, second);
        assert_eq!(first_asked, second_asked);
        let first = run_transactions(db.query_block_order_transactions(block), &mut first_asked);
        let second = run_transactions(db.query_block_order_transactions(block), &mut second_asked);
        assert_eq!(first, second);
        let first = run_receipts(db.get_receipts(block), &mut first_asked);
        let second = run_receipts(db.get_receipts(block), &mut second_asked);
        assert_eq!(first, second);
        assert_eq!(first_asked, second_asked);
    }
}

#[test]
fn block_analysis_describes_the_block_transactions() {
    let analyzed = run_analysis(analyze_block(&db(), 13)).unwrap();
    assert_eq!(analyzed.len(), 3);
    for (index, tx) in analyzed.iter().enumerate() {
        let record = first_record(13) + index as u64;
        assert_eq!(tx.block_number, 13);
        assert_eq!(tx.index, index as u32);
        assert_eq!(tx.hash, B256([record as u8; 32]));
        assert_eq!(tx.gas_price, Some(U256::from_u64(record)));
        assert_eq!(tx.tx_type, "Legacy");
    }
    assert!(run_analysis(analyze_block(&db(), 3)).unwrap().is_empty());
    assert!(matches!(analyze_block(&db(), 3), Step::Done(Ok(_))));
    assert!(run_analysis(analyze_block(&db(), 20)).unwrap().is_empty());
}

#[test]
fn creation_scan_flags_the_block_transactions() {
    // Block 14 holds records 6..10; those divisible by 3 create contracts.
    assert_eq!(first_record(14), 6);
    assert_eq!(
        run_creations(scan_block_contract_creations(&db(), 14)),
        Ok(vec![true, false, false, true])
    );
    assert_eq!(run_creations(scan_block_contract_creations(&db(), 2)), Ok(Vec::new()));
    let Step::Ask(request, state) = scan_block_contract_creations(&db(), 14) else {
        panic!("the body indices must be asked for")
    };
    assert_eq!(
        state.feed(Reply::Failed("io".to_string())),
        Step::Done(Err(AppError::Store { request, cause: Cause::Failed("io".to_string()) }))
    );
}

#[test]
fn body_indices_stay_within_the_record_space() {
    assert!(BlockBodyIndices::new(u64::MAX, 1).is_none());
    assert!(BlockBodyIndices::new(1, u64::MAX).is_none());
    let indices = BlockBodyIndices::new(u64::MAX - 5, 5).unwrap();
    assert_eq!(indices.first_tx_num(), u64::MAX - 5);
    assert_eq!(indices.tx_count(), 5);
    assert_eq!(indices.end_tx_num(), u64::MAX);
    let indices = BlockBodyIndices::new(50, 10).unwrap();
    assert_eq!(indices.end_tx_num(), 60);
}

#[test]
fn destinations_list_the_to_address_of_each_transaction() {
    // Block 14 holds records 6..10; those divisible by 3 create contracts.
    let mut step = analyze_block_transactions_with_to(&db(), 14);
    let tos = loop {
        match step {
            Step::Done(outcome) => break outcome.unwrap(),
            Step::Ask(request, state) => step = state.feed(answer(&request)),
        }
    };
    assert_eq!(
        tos,
        vec![None, Some(Address([7; 20])), Some(Address([8; 20])), None]
    );
    assert_eq!(analyze_block_transactions_with_to(&db(), 4), Step::Done(Ok(Vec::new())));
    let Step::Ask(request, state) = analyze_block_transactions_with_to(&db(), 14) else {
        panic!("the body indices must be asked for")
    };
    assert_eq!(
        state.feed(Reply::Failed("io".to_string())),
        Step::Done(Err(AppError::Store { request, cause: Cause::Failed("io".to_string()) }))
    );
    assert_eq!(
        transaction_destinations(&vec![transaction(3), transaction(4)]),
        vec![None, Some(Address([4; 20]))]
    );
}
