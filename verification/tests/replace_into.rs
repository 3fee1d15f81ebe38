use fuse_storage::bloom::BloomDigest;
use fuse_storage::digest::{bloom_hash, key_digest};
use fuse_storage::replace_into::{
    apply_deletion, deletion_for, is_block_skipped, is_valid_batch, list_affected_blocks,
    may_match_block, resolve, source_ranges, try_resolve, ReplaceIntoOperation,
};
use fuse_storage::statistics::ColumnRange;

fn range(min: i64, max: i64) -> ColumnRange {
    ColumnRange { min, max }
}

#[test]
fn empty_batch_asks_for_nothing() {
    let targets = vec![Some(vec![range(0, 10)])];
    assert_eq!(
        resolve(&targets, &vec![], &vec![0]),
        ReplaceIntoOperation::Nothing
    );
}

#[test]
fn blocks_outside_the_range_of_the_new_rows_are_passed_over() {
    // rows of (id, payload, region); the key is (region, id)
    let rows = vec![vec![15, 0, 2], vec![12, 0, 1], vec![18, 0, 2]];
    let columns = vec![2, 0];
    assert!(is_valid_batch(&rows, &columns));
    assert!(!is_valid_batch(&rows, &vec![3]));
    let ranges = source_ranges(&rows, &columns);
    assert_eq!(ranges, vec![range(1, 2), range(12, 18)]);

    let targets = vec![
        Some(vec![range(0, 11), range(0, 0), range(1, 2)]), // ids too small
        Some(vec![range(10, 12), range(0, 0), range(2, 2)]), // may hold a match
        None,                                              // nothing known
        Some(vec![range(13, 14), range(0, 0), range(3, 9)]), // other regions
        Some(vec![range(30, 20), range(0, 0), range(1, 1)]), // range not well formed
        Some(vec![range(19, 20)]),                          // ids too great
    ];
    assert!(is_block_skipped(&targets[0], &ranges, &columns));
    assert!(!is_block_skipped(&targets[1], &ranges, &columns));
    assert_eq!(
        list_affected_blocks(&targets, &ranges, &columns),
        vec![1, 2, 4]
    );

    match resolve(&targets, &rows, &columns) {
        ReplaceIntoOperation::Delete(deletions) => {
            assert_eq!(deletions.len(), 3);
            for deletion in deletions {
                assert_eq!(deletion.columns_min_max, vec![(1, 2), (12, 18)]);
                assert_eq!(deletion.key_hashes.len(), 3);
                assert!(deletion.key_hashes.contains(&key_digest(&vec![2, 15])));
                assert!(deletion.key_hashes.contains(&key_digest(&vec![1, 12])));
                assert!(deletion.key_hashes.contains(&key_digest(&vec![2, 18])));
                assert!(!deletion.key_hashes.contains(&key_digest(&vec![15, 2])));
                assert_eq!(
                    deletion.bloom_hashes,
                    vec![
                        vec![bloom_hash(2), bloom_hash(1), bloom_hash(2)],
                        vec![bloom_hash(15), bloom_hash(12), bloom_hash(18)],
                    ]
                );
            }
        }
        ReplaceIntoOperation::Nothing => panic!("rows were given"),
    }
}

#[test]
fn rows_without_a_match_anywhere_still_give_a_result() {
    let rows = vec![vec![5]];
    let targets = vec![Some(vec![range(6, 9)])];
    assert_eq!(
        resolve(&targets, &rows, &vec![0]),
        ReplaceIntoOperation::Delete(vec![])
    );
}

#[test]
fn equal_keys_share_one_digest() {
    let rows = vec![vec![1, 7], vec![1, 8], vec![1, 7]];
    match resolve(&vec![None], &rows, &vec![0, 1]) {
        ReplaceIntoOperation::Delete(deletions) => {
            assert_eq!(deletions.len(), 1);
            assert_eq!(deletions[0].key_hashes.len(), 2);
        }
        ReplaceIntoOperation::Nothing => panic!("rows were given"),
    }
}

#[test]
fn no_block_that_is_passed_over_holds_a_row_of_the_new_keys() {
    // every row that lies within the statistics of a block that is passed
    // over misses the range of the new rows in some key column
    let rows = vec![vec![3, 30], vec![5, 10], vec![4, 20]];
    let columns = vec![0, 1];
    let ranges = source_ranges(&rows, &columns);
    for block_min in -2..8i64 {
        for width in 0..3i64 {
            for second_min in [0i64, 15, 31] {
                let target = Some(vec![
                    range(block_min, block_min + width),
                    range(second_min, second_min + 10),
                ]);
                if !is_block_skipped(&target, &ranges, &columns) {
                    continue;
                }
                for a in block_min..=block_min + width {
                    for b in second_min..=second_min + 10 {
                        let inside = ranges[0].min <= a
                            && a <= ranges[0].max
                            && ranges[1].min <= b
                            && b <= ranges[1].max;
                        assert!(!inside);
                    }
                }
            }
        }
    }
}

#[test]
fn a_batch_with_a_short_row_is_not_resolved() {
    assert_eq!(try_resolve(&vec![None], &vec![vec![1], vec![]], &vec![0]), None);
    assert_eq!(
        try_resolve(&vec![], &vec![vec![1]], &vec![0]),
        Some(ReplaceIntoOperation::Delete(vec![]))
    );
}

#[test]
fn only_rows_of_the_new_keys_are_deleted() {
    let rows = vec![vec![1, 10, 7], vec![2, 20, 8]];
    let columns = vec![0, 1];
    let ranges = source_ranges(&rows, &columns);
    let mut deletion = deletion_for(&rows, &columns, &ranges);
    let block = vec![
        vec![1, 10, 0],
        vec![1, 20, 0],
        vec![2, 20, 5],
        vec![3, 30, 0],
        vec![1, 10, 9],
    ];
    assert_eq!(apply_deletion(&block, &rows, &columns, &deletion), vec![0, 2, 4]);
    // a digest that another key shares deletes nothing
    deletion.key_hashes.insert(key_digest(&vec![3, 30]));
    assert_eq!(apply_deletion(&block, &rows, &columns, &deletion), vec![0, 2, 4]);
    assert_eq!(apply_deletion(&vec![], &rows, &columns, &deletion), Vec::<usize>::new());
}

#[test]
fn bloom_digests_rule_blocks_out() {
    let rows = vec![vec![1, 10], vec![2, 20]];
    let columns = vec![0, 1];
    let ranges = source_ranges(&rows, &columns);
    let deletion = deletion_for(&rows, &columns, &ranges);
    let digest_of = |values: &[i64]| {
        let mut d = BloomDigest::new(16, 4);
        for v in values {
            d.insert(bloom_hash(*v));
        }
        Some(d)
    };
    // the block holds the key (2, 20)
    let holds = vec![digest_of(&[2, 5, 9]), digest_of(&[20, 50])];
    assert!(may_match_block(&holds, &columns, &deletion, 2));
    // the block holds neither 10 nor 20 in the second column
    let misses = vec![digest_of(&[1, 2]), digest_of(&[30, 40])];
    assert!(!may_match_block(&misses, &columns, &deletion, 2));
    // each new row is ruled out by another column
    let crossed = vec![digest_of(&[1]), digest_of(&[20])];
    assert!(!may_match_block(&crossed, &columns, &deletion, 2));
    // without digests nothing is ruled out
    assert!(may_match_block(&vec![None, None], &columns, &deletion, 2));
    assert!(may_match_block(&vec![], &columns, &deletion, 2));
    // no new rows: every one of them is ruled out
    assert!(!may_match_block(&holds, &columns, &deletion, 0));
}
