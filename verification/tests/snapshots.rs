use std::sync::Arc;

use fuse_storage::snapshot::{
    generate_snapshot, DataType, GenerationMode, SegmentsChange, TableField, TableSchema,
    TableSnapshot, TruncateGenerator, TruncateMode, TypeKind, SNAPSHOT_FORMAT_VERSION,
};
use fuse_storage::statistics::{ColumnRange, Statistics};
use fuse_storage::timestamp::Timestamp;

fn schema() -> TableSchema {
    TableSchema {
        fields: vec![TableField {
            name: "a".to_string(),
            data_type: DataType {
                kind: TypeKind::Number,
                nullable: false,
            },
        }],
    }
}

fn append(name: &str, rows: u64, min: i64, max: i64) -> GenerationMode {
    GenerationMode::Append(SegmentsChange {
        segments: vec![(name.to_string(), 4)],
        statistics: Statistics {
            row_count: rows,
            block_count: 1,
            byte_size: rows * 8,
            col_stats: vec![ColumnRange { min, max }],
        },
    })
}

fn at(secs: i64, nanos: u32) -> Timestamp {
    Timestamp::new(secs, nanos).unwrap()
}

#[test]
fn three_appends_then_a_purge() {
    let first = generate_snapshot(
        &append("seg1", 10, 0, 9),
        1,
        at(1000, 0),
        schema(),
        Some(3),
        &None,
        None,
        "t",
    )
    .unwrap();
    assert_eq!(first.prev_snapshot_id, None);
    assert_eq!(first.timestamp, Some(at(1000, 0)));
    assert_eq!(first.cluster_key_id, Some(3));
    let first = Some(Arc::new(first));

    // the clock went back: the snapshot is still later than the one before
    let second = generate_snapshot(
        &append("seg2", 5, 20, 29),
        2,
        at(999, 0),
        schema(),
        None,
        &first,
        Some(7),
        "t",
    )
    .unwrap();
    assert_eq!(second.timestamp, Some(at(1000, 1_000_000)));
    assert_eq!(second.prev_snapshot_id, Some((1, SNAPSHOT_FORMAT_VERSION)));
    assert_eq!(second.prev_table_seq, Some(7));
    let second = Some(Arc::new(second));

    let third = generate_snapshot(
        &append("seg3", 1, -4, -4),
        3,
        at(2000, 123_456_789),
        schema(),
        None,
        &second,
        Some(8),
        "t",
    )
    .unwrap();
    assert_eq!(
        third.segments,
        vec![
            ("seg3".to_string(), 4),
            ("seg2".to_string(), 4),
            ("seg1".to_string(), 4)
        ]
    );
    assert_eq!(
        third.summary.statistics,
        Statistics {
            row_count: 16,
            block_count: 3,
            byte_size: 128,
            col_stats: vec![ColumnRange { min: -4, max: 29 }],
        }
    );
    assert!(!third.summary.purge_ancestors);
    assert_eq!(third.timestamp, Some(at(2000, 123_456_000)));
    let third = Some(Arc::new(third));

    let purged = TruncateGenerator::new(TruncateMode::Purge)
        .generate_at(4, at(2000, 123_456_100), schema(), Some(3), &third, Some(9), "t")
        .unwrap();
    assert!(purged.segments.is_empty());
    assert!(purged.summary.purge_ancestors);
    assert_eq!(purged.summary.statistics, Statistics::empty());
    assert_eq!(purged.prev_snapshot_id, Some((3, SNAPSHOT_FORMAT_VERSION)));
    assert_eq!(purged.prev_table_seq, Some(9));
    assert_eq!(purged.cluster_key_id, None);
    assert_eq!(purged.timestamp, Some(at(2000, 124_456_000)));
    assert_eq!(purged.snapshot_id, 4);
    assert_eq!(purged.format_version, SNAPSHOT_FORMAT_VERSION);
    assert_eq!(purged.schema, schema());
}

#[test]
fn truncation_that_keeps_history_does_not_mark_ancestors() {
    let previous: Option<Arc<TableSnapshot>> = Some(Arc::new(
        generate_snapshot(&append("s", 1, 1, 1), 9, at(5, 0), schema(), None, &None, None, "t")
            .unwrap(),
    ));
    for mode in [TruncateMode::Normal, TruncateMode::Delete] {
        let generator = TruncateGenerator::new(mode);
        assert_eq!(*generator.mode(), mode);
        let snapshot = generator
            .generate_at(10, at(6, 0), schema(), None, &previous, None, "t")
            .unwrap();
        assert!(snapshot.segments.is_empty());
        assert!(!snapshot.summary.purge_ancestors);
        assert_eq!(snapshot.prev_snapshot_id, Some((9, SNAPSHOT_FORMAT_VERSION)));
    }
}

#[test]
fn generated_snapshot_gets_a_fresh_identifier_and_the_time_of_the_clock() {
    let generator = TruncateGenerator::new(TruncateMode::Normal);
    let a = generator
        .do_generate_new_snapshot(schema(), None, &None, Some(1), "t")
        .unwrap();
    let b = generator
        .do_generate_new_snapshot(schema(), None, &Some(Arc::new(a.clone())), Some(2), "t")
        .unwrap();
    assert_ne!(a.snapshot_id, b.snapshot_id);
    assert_eq!(b.prev_snapshot_id, Some((a.snapshot_id, a.format_version)));
    let (ta, tb) = (a.timestamp.unwrap(), b.timestamp.unwrap());
    assert!(ta.lt(&tb));
    assert_eq!(ta.nanos % 1000, 0);
    assert!(ta.secs > 1_600_000_000);
    assert!(b.segments.is_empty());
}

#[test]
fn compaction_replaces_the_segments() {
    let previous = Some(Arc::new(
        generate_snapshot(&append("old", 4, 0, 3), 1, at(5, 0), schema(), None, &None, None, "t")
            .unwrap(),
    ));
    let compact = GenerationMode::Compact(SegmentsChange {
        segments: vec![("new".to_string(), 4)],
        statistics: Statistics {
            row_count: 4,
            block_count: 1,
            byte_size: 20,
            col_stats: vec![ColumnRange { min: 0, max: 3 }],
        },
    });
    let snapshot =
        generate_snapshot(&compact, 2, at(6, 0), schema(), Some(1), &previous, None, "t").unwrap();
    assert_eq!(snapshot.segments, vec![("new".to_string(), 4)]);
    assert_eq!(snapshot.summary.statistics.byte_size, 20);
    assert_eq!(snapshot.cluster_key_id, Some(1));
}
