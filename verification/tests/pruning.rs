use fuse_storage::bloom::BloomDigest;
use fuse_storage::digest::bloom_hash;
use fuse_storage::pruning::{prune, Condition, FusePruningStatistics, Predicate};
use fuse_storage::segment::{BlockMeta, SegmentInfo};
use fuse_storage::statistics::ColumnRange;

fn range(min: i64, max: i64) -> ColumnRange {
    ColumnRange { min, max }
}

fn block(name: &str, cols: Vec<ColumnRange>, values: Option<Vec<i64>>) -> BlockMeta {
    let bloom = match values {
        Some(values) => {
            let mut digest = BloomDigest::new(4, 3);
            for v in values {
                digest.insert(bloom_hash(v));
            }
            vec![Some(digest)]
        }
        None => vec![],
    };
    BlockMeta {
        location: name.to_string(),
        row_count: 10,
        block_size: 100,
        col_stats: cols,
        bloom,
    }
}

fn table() -> Vec<SegmentInfo> {
    vec![
        SegmentInfo::new(
            "s0".to_string(),
            vec![
                block("s0b0", vec![range(0, 9)], Some(vec![0, 3, 9])),
                block("s0b1", vec![range(10, 19)], Some(vec![10, 15, 19])),
            ],
        ),
        SegmentInfo::new(
            "s1".to_string(),
            vec![block("s1b0", vec![range(100, 199)], None)],
        ),
        SegmentInfo::new(
            "s2".to_string(),
            vec![
                block("s2b0", vec![range(12, 30)], Some(vec![12, 30])),
                block("s2b1", vec![range(5, 1)], None),
            ],
        ),
    ]
}

#[test]
fn range_pass_drops_what_cannot_match() {
    let predicate = Predicate {
        conditions: vec![Condition::Range {
            column: 0,
            low: 11,
            high: 14,
        }],
    };
    let mut counters = FusePruningStatistics::default();
    let kept = prune(&predicate, &table(), &mut counters);
    // the block with the malformed range is kept: it proves nothing
    assert_eq!(kept, vec![(0, 1), (2, 0), (2, 1)]);
    assert_eq!(
        counters,
        FusePruningStatistics {
            segments_range_pruning_before: 3,
            segments_range_pruning_after: 2,
            blocks_range_pruning_before: 4,
            blocks_range_pruning_after: 3,
            blocks_bloom_pruning_before: 3,
            blocks_bloom_pruning_after: 3,
        }
    );
}

#[test]
fn bloom_pass_drops_blocks_that_never_saw_the_value() {
    let predicate = Predicate {
        conditions: vec![Condition::Equals {
            column: 0,
            value: 15,
        }],
    };
    let mut counters = FusePruningStatistics::default();
    let kept = prune(&predicate, &table(), &mut counters);
    // s0b1 holds 15; s2b0 spans 15 but its digest has no 15; s2b1 has no digest
    assert_eq!(kept, vec![(0, 1), (2, 1)]);
    assert_eq!(counters.segments_range_pruning_before, 3);
    assert_eq!(counters.segments_range_pruning_after, 2);
    assert_eq!(counters.blocks_range_pruning_before, 4);
    assert_eq!(counters.blocks_range_pruning_after, 3);
    assert_eq!(counters.blocks_bloom_pruning_before, 3);
    assert_eq!(counters.blocks_bloom_pruning_after, 2);
}

#[test]
fn counters_only_grow_and_stop_at_the_top() {
    let predicate = Predicate { conditions: vec![] };
    let mut counters = FusePruningStatistics::default();
    counters.segments_range_pruning_before = u64::MAX - 1;
    counters.blocks_bloom_pruning_after = 40;
    let kept = prune(&predicate, &table(), &mut counters);
    assert_eq!(kept, vec![(0, 0), (0, 1), (1, 0), (2, 0), (2, 1)]);
    assert_eq!(counters.segments_range_pruning_before, u64::MAX);
    assert_eq!(counters.segments_range_pruning_after, 3);
    assert_eq!(counters.blocks_bloom_pruning_after, 45);
    let again = prune(&predicate, &table(), &mut counters);
    assert_eq!(again.len(), 5);
    assert_eq!(counters.segments_range_pruning_after, 6);
    assert_eq!(counters.blocks_bloom_pruning_after, 50);
}

#[test]
fn a_condition_on_a_column_without_statistics_keeps_everything() {
    let predicate = Predicate {
        conditions: vec![Condition::Range {
            column: 7,
            low: 0,
            high: 0,
        }],
    };
    let mut counters = FusePruningStatistics::default();
    assert_eq!(prune(&predicate, &table(), &mut counters).len(), 5);
}

#[test]
fn no_discarded_block_holds_a_matching_row() {
    // rows made up inside each block's ranges never meet a predicate that
    // dropped the block
    let segments = table();
    for low in -5..40i64 {
        for width in 0..4i64 {
            let predicate = Predicate {
                conditions: vec![Condition::Range {
                    column: 0,
                    low,
                    high: low + width,
                }],
            };
            let mut counters = FusePruningStatistics::default();
            let kept = prune(&predicate, &segments, &mut counters);
            for (s, segment) in segments.iter().enumerate() {
                for (b, block) in segment.blocks.iter().enumerate() {
                    if kept.contains(&(s, b)) {
                        continue;
                    }
                    let r = block.col_stats[0];
                    let mut v = r.min;
                    while v <= r.max {
                        assert!(!(low <= v && v <= low + width));
                        v += 1;
                    }
                }
            }
        }
    }
}

#[test]
fn a_block_of_malformed_or_missing_statistics_keeps_its_segment() {
    let predicate = Predicate {
        conditions: vec![Condition::Range { column: 0, low: 3, high: 10 }],
    };
    // one block says nothing of the column: the summary says nothing either
    let malformed = SegmentInfo::new(
        "m".to_string(),
        vec![block("m0", vec![range(5, 0)], None), block("m1", vec![range(1, 2)], None)],
    );
    assert_eq!(malformed.summary.col_stats, vec![ColumnRange::unknown()]);
    let missing = SegmentInfo::new(
        "n".to_string(),
        vec![block("n0", vec![], None), block("n1", vec![range(1, 2)], None)],
    );
    assert_eq!(missing.summary.col_stats, vec![]);
    let plain = SegmentInfo::new(
        "w".to_string(),
        vec![block("w0", vec![range(0, 1)], None), block("w1", vec![range(1, 2)], None)],
    );
    assert_eq!(plain.summary.col_stats, vec![range(0, 2)]);
    let mut statistics = FusePruningStatistics::default();
    let kept = prune(&predicate, &vec![malformed, missing, plain], &mut statistics);
    // the blocks that say nothing stay; the others are ruled out one by one
    assert_eq!(kept, vec![(0, 0), (1, 0)]);
    assert_eq!(statistics.segments_range_pruning_before, 3);
    assert_eq!(statistics.segments_range_pruning_after, 2);
}
