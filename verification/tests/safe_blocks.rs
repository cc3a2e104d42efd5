use bsc_scan::databases::BscDatabase;

fn db(earliest: u64, latest: u64) -> BscDatabase {
    BscDatabase { latest_block: latest, earliest_available_block: earliest }
}

#[test]
fn test_safe_block_generation() {
    // 100 blocks, three samples: the step is 100 / 3 = 33.
    assert_eq!(db(1, 100).get_safe_test_blocks(3), vec![34, 67, 100]);
    // A single block is its own sample.
    assert_eq!(db(7, 7).get_safe_test_blocks(3), vec![7]);
}

#[test]
fn one_sample_is_the_latest_block() {
    assert_eq!(db(1, 100).get_safe_test_blocks(1), vec![100]);
    assert_eq!(db(1, 100).get_safe_test_blocks(0), vec![100]);
}

#[test]
fn fewer_blocks_than_samples_gives_every_block() {
    assert_eq!(db(5, 6).get_safe_test_blocks(3), vec![5, 6]);
    assert_eq!(db(10, 12).get_safe_test_blocks(3), vec![10, 11, 12]);
    assert_eq!(db(10, 12).get_safe_test_blocks(10), vec![10, 11, 12]);
    assert_eq!(db(0, 1).get_safe_test_blocks(5), vec![0, 1]);
}

#[test]
fn samples_are_spread_by_the_step() {
    // 1000 blocks, 4 samples: step 250.
    assert_eq!(db(1, 1_000).get_safe_test_blocks(4), vec![250, 500, 750, 1_000]);
    // 4 blocks, 3 samples: step 1.
    assert_eq!(db(1, 4).get_safe_test_blocks(3), vec![2, 3, 4]);
    // 7 blocks, 2 samples: step 3.
    assert_eq!(db(4, 10).get_safe_test_blocks(2), vec![7, 10]);
}

#[test]
fn samples_over_the_whole_number_space() {
    // 2^64 blocks, two samples: the step is 2^63.
    assert_eq!(db(0, u64::MAX).get_safe_test_blocks(2), vec![(1u64 << 63) - 1, u64::MAX]);
    assert_eq!(
        db(0, u64::MAX).get_safe_test_blocks(3),
        vec![u64::MAX - 2 * 6148914691236517205, u64::MAX - 6148914691236517205, u64::MAX]
    );
}

#[test]
fn samples_are_ascending_distinct_and_in_range() {
    for earliest in 0u64..12 {
        for latest in earliest..earliest + 30 {
            for count in 0usize..8 {
                let blocks = db(earliest, latest).get_safe_test_blocks(count);
                assert!(!blocks.is_empty());
                assert!(blocks.len() <= count.max(1));
                assert_eq!(*blocks.last().unwrap(), latest);
                assert!(blocks.windows(2).all(|pair| pair[0] < pair[1]));
                assert!(blocks.iter().all(|block| earliest <= *block && *block <= latest));
            }
        }
    }
}
