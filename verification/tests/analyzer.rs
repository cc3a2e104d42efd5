use bsc_scan::analysis::{analyze_tx, analyze_txs, AnalyzedTx};
use bsc_scan::model::{Transaction, TxCommon};
use bsc_scan::primitives::{Address, B256, U256};
use bsc_scan::scan_ct::{contract_creations, creation_label};

fn common(seed: u8, to: Option<Address>, input_len: usize) -> TxCommon {
    TxCommon {
        hash: B256([seed; 32]),
        nonce: seed as u64 + 1,
        gas_limit: 21_000 + seed as u64,
        to,
        value: U256::from_u64(1_000 * seed as u64),
        input: vec![0xab; input_len],
    }
}

fn some_address() -> Address {
    Address([0x11; 20])
}

fn priced(tx: &AnalyzedTx) -> (Option<U256>, Option<U256>, Option<U256>, &'static str) {
    (tx.gas_price, tx.max_fee_per_gas, tx.max_priority_fee_per_gas, tx.tx_type)
}

#[test]
fn legacy_creation_is_priced_by_gas_price() {
    let tx = Transaction::Legacy { common: common(1, None, 0), gas_price: 5 };
    let analyzed = analyze_txs(9, vec![tx]);
    assert_eq!(analyzed.len(), 1);
    assert_eq!(priced(&analyzed[0]), (Some(U256::from_u128(5)), None, None, "Legacy"));
    assert!(analyzed[0].is_contract_creation());
    assert_eq!(analyzed[0].to, None);
}

#[test]
fn fee_market_call_is_priced_by_fee_caps() {
    let tx = Transaction::Eip1559 {
        common: common(2, Some(some_address()), 4),
        max_fee_per_gas: 100,
        max_priority_fee_per_gas: Some(2),
    };
    let analyzed = analyze_txs(9, vec![tx]);
    assert_eq!(
        priced(&analyzed[0]),
        (None, Some(U256::from_u128(100)), Some(U256::from_u128(2)), "Eip1559")
    );
    assert!(!analyzed[0].is_contract_creation());
    assert_eq!(analyzed[0].to, Some(some_address()));
}

#[test]
fn every_encoding_has_its_tag_and_pricing() {
    let txs = vec![
        Transaction::Legacy { common: common(0, None, 0), gas_price: 7 },
        Transaction::Eip2930 { common: common(1, Some(some_address()), 1), gas_price: 8 },
        Transaction::Eip1559 {
            common: common(2, Some(some_address()), 2),
            max_fee_per_gas: 9,
            max_priority_fee_per_gas: Some(1),
        },
        Transaction::Eip4844 {
            common: common(3, Some(some_address()), 3),
            max_fee_per_gas: 10,
            max_priority_fee_per_gas: None,
        },
        Transaction::Eip7702 {
            common: common(4, Some(some_address()), 4),
            max_fee_per_gas: u128::MAX,
            max_priority_fee_per_gas: Some(0),
        },
    ];
    let analyzed = analyze_txs(77, txs);
    assert_eq!(priced(&analyzed[0]), (Some(U256::from_u128(7)), None, None, "Legacy"));
    assert_eq!(priced(&analyzed[1]), (Some(U256::from_u128(8)), None, None, "Eip2930"));
    assert_eq!(
        priced(&analyzed[2]),
        (None, Some(U256::from_u128(9)), Some(U256::from_u128(1)), "Eip1559")
    );
    assert_eq!(priced(&analyzed[3]), (None, Some(U256::from_u128(10)), None, "Eip4844"));
    assert_eq!(
        priced(&analyzed[4]),
        (None, Some(U256 { hi: 0, lo: u128::MAX }), Some(U256::from_u128(0)), "Eip7702")
    );
}

#[test]
fn descriptors_keep_order_and_common_fields() {
    let txs: Vec<Transaction> = (0u8..6)
        .map(|seed| Transaction::Legacy {
            common: common(seed, if seed % 2 == 0 { None } else { Some(some_address()) }, seed as usize * 3),
            gas_price: seed as u128,
        })
        .collect();
    let analyzed = analyze_txs(1234, txs);
    assert_eq!(analyzed.len(), 6);
    for (position, tx) in analyzed.iter().enumerate() {
        let seed = position as u8;
        assert_eq!(tx.block_number, 1234);
        assert_eq!(tx.index, position as u32);
        assert_eq!(tx.hash, B256([seed; 32]));
        assert_eq!(tx.nonce, seed as u64 + 1);
        assert_eq!(tx.gas_limit, 21_000 + seed as u64);
        assert_eq!(tx.value, U256::from_u64(1_000 * seed as u64));
        assert_eq!(tx.input_size, position * 3);
        assert_eq!(tx.is_contract_creation(), seed % 2 == 0);
    }
}

#[test]
fn exactly_one_pricing_scheme_is_filled_in() {
    let txs = vec![
        Transaction::Legacy { common: common(0, None, 0), gas_price: 0 },
        Transaction::Eip2930 { common: common(1, None, 0), gas_price: 0 },
        Transaction::Eip1559 { common: common(2, None, 0), max_fee_per_gas: 0, max_priority_fee_per_gas: None },
        Transaction::Eip4844 { common: common(3, None, 0), max_fee_per_gas: 0, max_priority_fee_per_gas: Some(0) },
        Transaction::Eip7702 { common: common(4, None, 0), max_fee_per_gas: 0, max_priority_fee_per_gas: None },
    ];
    for tx in analyze_txs(0, txs) {
        let by_price = tx.gas_price.is_some();
        let by_cap = tx.max_fee_per_gas.is_some();
        assert!(by_price != by_cap);
        if by_price {
            assert!(tx.max_priority_fee_per_gas.is_none());
        }
    }
}

#[test]
fn no_transactions_give_no_descriptors() {
    assert!(analyze_txs(5, Vec::new()).is_empty());
}

#[test]
fn index_is_the_position_in_thirty_two_bits() {
    let tx = Transaction::Legacy { common: common(1, None, 0), gas_price: 1 };
    assert_eq!(analyze_tx(1, 0, &tx).index, 0);
    assert_eq!(analyze_tx(1, 4_294_967_295, &tx).index, u32::MAX);
    assert_eq!(analyze_tx(1, 4_294_967_296, &tx).index, 0);
    assert_eq!(analyze_tx(1, 4_294_967_296 + 17, &tx).index, 17);
}

#[test]
fn creations_are_the_transactions_without_destination() {
    let txs = vec![
        Transaction::Legacy { common: common(0, None, 0), gas_price: 1 },
        Transaction::Eip1559 {
            common: common(1, Some(some_address()), 0),
            max_fee_per_gas: 1,
            max_priority_fee_per_gas: Some(1),
        },
        Transaction::Eip2930 { common: common(2, None, 0), gas_price: 1 },
    ];
    assert!(txs[0].is_contract_creation());
    assert!(!txs[1].is_contract_creation());
    assert_eq!(contract_creations(&txs), vec![true, false, true]);
    assert_eq!(contract_creations(&Vec::new()), Vec::<bool>::new());
    assert_eq!(creation_label(true), "CREATE");
    assert_eq!(creation_label(false), "CALL");
}
