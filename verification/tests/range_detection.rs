use bsc_scan::error::{AppError, Cause};
use bsc_scan::model::BlockHeader;
use bsc_scan::primitives::B256;
use bsc_scan::range::{BlockRange, RangeDetector};
use bsc_scan::store::{Reply, Request, Step};

fn header(number: u64) -> BlockHeader {
    BlockHeader {
        number,
        hash: B256([0u8; 32]),
        parent_hash: B256([0u8; 32]),
        timestamp: 0,
        gas_used: 0,
        state_root: B256([0u8; 32]),
    }
}

/// Runs detection against a store whose best block is `latest` and whose
/// header reads are answered by `lookup`. Returns the range and the headers
/// probed, in order.
fn detect_with(latest: u64, lookup: &dyn Fn(u64) -> Reply) -> (BlockRange, Vec<u64>) {
    let mut probed = Vec::new();
    let mut step = RangeDetector::detect_node_characteristics();
    loop {
        match step {
            Step::Done(outcome) => return (outcome.unwrap(), probed),
            Step::Ask(request, state) => {
                let reply = match request {
                    Request::BestBlockNumber => Reply::BlockNumber(latest),
                    Request::Header(number) => {
                        probed.push(number);
                        lookup(number)
                    }
                    other => panic!("unexpected request {:?}", other),
                };
                step = state.feed(reply);
            }
        }
    }
}

/// A store whose headers resolve from `first` on.
fn detect(latest: u64, first: u64) -> (BlockRange, Vec<u64>) {
    detect_with(latest, &|number| {
        if number >= first && number <= latest {
            Reply::Header(header(number))
        } else {
            Reply::NotFound
        }
    })
}

#[test]
fn test_node_type_classification() {
    // A store that holds every block from the first on.
    let (range, _) = detect(50_000, 1);
    assert_eq!(range, BlockRange { latest: 50_000, earliest: 1 });
    // A store whose history below block 30_000 is gone.
    let (range, _) = detect(50_000, 30_000);
    assert_eq!(range, BlockRange { latest: 50_000, earliest: 30_000 });
}

#[test]
fn detection_begins_with_the_best_block_number() {
    match RangeDetector::detect_node_characteristics() {
        Step::Ask(request, state) => {
            assert_eq!(request, Request::BestBlockNumber);
            assert_eq!(state, RangeDetector::Latest);
        }
        Step::Done(_) => panic!("detection cannot end before it asked"),
    }
}

#[test]
fn all_headers_resolve_gives_earliest_one() {
    for latest in [1u64, 2, 99, 100, 101, 9_999, 10_000, 10_001, 1_000_000] {
        let (range, _) = detect_with(latest, &|number| Reply::Header(header(number)));
        assert_eq!(range, BlockRange { latest, earliest: 1 });
    }
}

#[test]
fn no_header_resolves_gives_earliest_latest() {
    for latest in [0u64, 1, 2, 100, 12_345, u64::MAX] {
        let (range, _) = detect_with(latest, &|_| Reply::NotFound);
        assert_eq!(range, BlockRange { latest, earliest: latest });
    }
}

#[test]
fn earliest_is_the_threshold_of_the_store() {
    let latest = 20_000u64;
    for first in [1u64, 2, 3, 99, 100, 101, 999, 1_000, 1_001, 9_999, 10_000, 10_001, 19_999, 20_000] {
        let (range, _) = detect(latest, first);
        assert_eq!(range, BlockRange { latest, earliest: first });
    }
}

#[test]
fn earliest_is_the_threshold_for_every_small_store() {
    for latest in 1u64..=40 {
        for first in 1u64..=latest {
            let (range, _) = detect(latest, first);
            assert_eq!(range, BlockRange { latest, earliest: first });
        }
    }
}

#[test]
fn empty_store_probes_nothing() {
    let (range, probed) = detect(0, 1);
    assert_eq!(range, BlockRange { latest: 0, earliest: 0 });
    assert!(probed.is_empty());
}

#[test]
fn single_block_store_probes_the_first_candidate_only() {
    let (range, probed) = detect(1, 1);
    assert_eq!(range, BlockRange { latest: 1, earliest: 1 });
    assert_eq!(probed, vec![1]);
}

#[test]
fn candidates_above_latest_are_skipped() {
    let (range, probed) = detect(500, 1);
    assert_eq!(range.earliest, 1);
    assert_eq!(&probed[..2], &[1, 100]);
    assert!(probed.iter().all(|number| *number <= 500));
    // After the two candidates the search runs over 1..=500.
    assert_eq!(probed[2], 250);
}

#[test]
fn first_candidate_missing_searches_up_to_latest() {
    let (range, probed) = detect(1_000, 700);
    assert_eq!(range, BlockRange { latest: 1_000, earliest: 700 });
    assert_eq!(probed[0], 1);
    // No further candidate is probed; the search begins at the midpoint.
    assert_eq!(probed[1], 500);
}

#[test]
fn a_failing_candidate_bounds_the_search_by_the_one_before() {
    // Headers are there for blocks 1..=500 only.
    let latest = 5_000u64;
    let (range, probed) = detect_with(latest, &|number| {
        if number >= 1 && number <= 500 {
            Reply::Header(header(number))
        } else {
            Reply::NotFound
        }
    });
    assert_eq!(&probed[..3], &[1, 100, 1_000]);
    // The search runs over 1..=100, where every header resolves.
    assert_eq!(probed[3], 50);
    assert!(probed[3..].iter().all(|number| *number <= 100));
    assert_eq!(range, BlockRange { latest, earliest: 1 });
}

#[test]
fn read_failures_during_probing_count_as_missing() {
    let latest = 3_000u64;
    let (range, _) = detect_with(latest, &|number| {
        if number >= 2_000 {
            Reply::Header(header(number))
        } else {
            Reply::Failed("read error".to_string())
        }
    });
    assert_eq!(range, BlockRange { latest, earliest: 2_000 });
}

#[test]
fn a_failed_best_block_read_is_fatal() {
    let step = RangeDetector::Latest.feed(Reply::Failed("no database".to_string()));
    assert_eq!(
        step,
        Step::Done(Err(AppError::Store {
            request: Request::BestBlockNumber,
            cause: Cause::Failed("no database".to_string()),
        }))
    );
    let step = RangeDetector::Latest.feed(Reply::NotFound);
    assert_eq!(
        step,
        Step::Done(Err(AppError::Store {
            request: Request::BestBlockNumber,
            cause: Cause::Unexpected,
        }))
    );
}

#[test]
fn search_tests_the_midpoint_and_halves_the_interval() {
    let step = RangeDetector::binary_search_earliest_block(100, 1, 100);
    assert_eq!(
        step,
        Step::Ask(Request::Header(50), RangeDetector::Search { latest: 100, low: 1, high: 100 })
    );
    let found = RangeDetector::Search { latest: 100, low: 1, high: 100 }.feed(Reply::Header(header(50)));
    assert_eq!(
        found,
        Step::Ask(Request::Header(25), RangeDetector::Search { latest: 100, low: 1, high: 50 })
    );
    let missing = RangeDetector::Search { latest: 100, low: 1, high: 100 }.feed(Reply::NotFound);
    assert_eq!(
        missing,
        Step::Ask(Request::Header(75), RangeDetector::Search { latest: 100, low: 51, high: 100 })
    );
    let last = RangeDetector::Search { latest: 100, low: 7, high: 8 }.feed(Reply::NotFound);
    assert_eq!(last, Step::Done(Ok(BlockRange { latest: 100, earliest: 8 })));
}

#[test]
fn search_near_the_top_of_the_number_space_does_not_overflow() {
    let latest = u64::MAX;
    let (range, probed) = detect(latest, u64::MAX - 3);
    assert_eq!(range, BlockRange { latest, earliest: u64::MAX - 3 });
    assert!(probed.len() <= 1 + 64);
}

#[test]
fn detection_asks_few_headers() {
    let (_, probed) = detect(1u64 << 40, 123_456_789);
    assert!(probed.len() <= 4 + 41);
}

#[test]
fn detected_range_is_never_inverted() {
    // A store with holes: even blocks only.
    for latest in 0u64..200 {
        let (range, _) = detect_with(latest, &|number| {
            if number % 2 == 0 {
                Reply::Header(header(number))
            } else {
                Reply::NotFound
            }
        });
        assert!(range.earliest <= range.latest);
        assert_eq!(range.latest, latest);
    }
}

#[test]
fn ranges_say_whether_they_are_well_formed() {
    assert!(BlockRange { latest: 5, earliest: 5 }.is_wf());
    assert!(BlockRange { latest: 5, earliest: 0 }.is_wf());
    assert!(!BlockRange { latest: 5, earliest: 6 }.is_wf());
}

#[test]
fn detection_never_takes_more_than_sixty_nine_reads() {
    for (latest, first) in [(u64::MAX, 1), (u64::MAX, u64::MAX), (u64::MAX, 1 << 63), (u64::MAX, 12_345)] {
        let (range, probed) = detect(latest, first);
        assert_eq!(range, BlockRange { latest, earliest: first });
        assert!(probed.len() + 1 <= 69);
    }
    let (_, probed) = detect_with(u64::MAX, &|number| {
        if number % 3 == 0 {
            Reply::Header(header(number))
        } else {
            Reply::NotFound
        }
    });
    assert!(probed.len() + 1 <= 69);
}

#[test]
fn every_header_read_lies_in_the_range_and_none_is_searched_twice() {
    for latest in [1u64, 2, 3, 7, 100, 101, 5_000, 1 << 20] {
        for first in [1u64, 2, latest / 2 + 1, latest] {
            let (_, probed) = detect(latest, first);
            assert!(probed.iter().all(|number| 1 <= *number && *number <= latest));
            // The reads after the candidates are those of the search.
            let coarse = probed.iter().take_while(|number| [1, 100, 1_000, 10_000].contains(*number)).count();
            let coarse = if first == 1 { coarse.min(4) } else { 1 };
            let search = &probed[coarse.min(probed.len())..];
            for (i, number) in search.iter().enumerate() {
                assert!(!search[..i].contains(number));
            }
        }
    }
}

#[test]
fn a_failed_header_read_gives_the_same_range_and_reads_as_a_missing_one() {
    for latest in [1u64, 50, 4_321] {
        for first in [1u64, 17, latest] {
            let failing = detect_with(latest, &|number| {
                if number >= first && number <= latest {
                    Reply::Header(header(number))
                } else {
                    Reply::Failed("io".to_string())
                }
            });
            assert_eq!(failing, detect(latest, first));
        }
    }
}
