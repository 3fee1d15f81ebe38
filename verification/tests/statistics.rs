use fuse_storage::bloom::BloomDigest;
use fuse_storage::digest::{bloom_hash, key_digest};
use fuse_storage::segment::{BlockMeta, SegmentInfo};
use fuse_storage::statistics::{rollup_column_ranges, ColumnRange, Statistics};

fn range(min: i64, max: i64) -> ColumnRange {
    ColumnRange { min, max }
}

fn stats(rows: u64, blocks: u64, bytes: u64, cols: Vec<ColumnRange>) -> Statistics {
    Statistics {
        row_count: rows,
        block_count: blocks,
        byte_size: bytes,
        col_stats: cols,
    }
}

#[test]
fn ranges_roll_up_to_their_union() {
    assert_eq!(range(1, 5).rollup(&range(3, 9)), range(1, 9));
    assert_eq!(range(-4, -2).rollup(&range(7, 7)), range(-4, 7));
    // a column that only one list has is missing from the result
    assert_eq!(
        rollup_column_ranges(&vec![range(1, 2), range(10, 20)], &vec![range(0, 1)]),
        vec![range(0, 2)]
    );
}

#[test]
fn a_range_that_is_not_well_formed_stays_so_when_rolled_up() {
    let unknown = ColumnRange::unknown();
    assert_eq!(unknown, ColumnRange { min: i64::MAX, max: i64::MIN });
    assert!(!unknown.is_well_formed());
    assert_eq!(range(5, 0).rollup(&range(1, 2)), unknown);
    assert_eq!(range(1, 2).rollup(&range(5, 0)), unknown);
    assert_eq!(unknown.rollup(&range(1, 2)), unknown);
    assert_eq!(range(5, 0).rollup(&range(9, 3)), unknown);
    let a = stats(1, 1, 1, vec![range(5, 0), range(1, 1)]);
    let b = stats(1, 1, 1, vec![range(1, 2), range(2, 2)]);
    let c = stats(1, 1, 1, vec![range(7, 8)]);
    assert_eq!(a.rollup(&b), stats(2, 2, 2, vec![unknown, range(1, 2)]));
    assert_eq!(a.rollup(&b), b.rollup(&a));
    assert_eq!(a.rollup(&b).rollup(&c), a.rollup(&b.rollup(&c)));
    assert_eq!(a.rollup(&b).rollup(&c), stats(3, 3, 3, vec![unknown]));
}

#[test]
fn the_statistics_of_no_rows_change_nothing() {
    let a = stats(10, 1, 100, vec![range(1, 5), range(-3, 3)]);
    assert!(Statistics::empty().is_empty());
    assert!(!a.is_empty());
    assert!(!stats(0, 1, 0, vec![]).is_empty());
    assert_eq!(Statistics::empty().rollup(&a), a);
    assert_eq!(a.rollup(&Statistics::empty()), a);
    assert_eq!(a.copy(), a);
    // statistics of some rows without ranges leave no range
    assert_eq!(a.rollup(&stats(1, 1, 1, vec![])), stats(11, 2, 101, vec![]));
}

#[test]
fn rollup_is_commutative_and_associative() {
    let a = stats(10, 1, 100, vec![range(1, 5), range(-3, 3)]);
    let b = stats(20, 2, 50, vec![range(0, 2)]);
    let c = stats(u64::MAX, 1, 7, vec![range(9, 9), range(4, 40), range(1, 1)]);
    assert_eq!(a.rollup(&b), b.rollup(&a));
    assert_eq!(a.rollup(&b).rollup(&c), a.rollup(&b.rollup(&c)));
    let all = a.rollup(&b).rollup(&c);
    assert_eq!(
        all,
        stats(
            u64::MAX,
            4,
            157,
            vec![range(0, 9)]
        )
    );
    assert_eq!(Statistics::empty().rollup(&a), a);
}

#[test]
fn segment_summary_is_the_rollup_of_its_blocks() {
    let block = |rows: u64, size: u64, cols: Vec<ColumnRange>| BlockMeta {
        location: "b".to_string(),
        row_count: rows,
        block_size: size,
        col_stats: cols,
        bloom: vec![],
    };
    let segment = SegmentInfo::new(
        "seg".to_string(),
        vec![
            block(3, 30, vec![range(1, 4)]),
            block(5, 50, vec![range(-1, 2)]),
        ],
    );
    assert_eq!(segment.summary, stats(8, 2, 80, vec![range(-1, 4)]));
    let empty = SegmentInfo::new("e".to_string(), vec![]);
    assert_eq!(empty.summary, Statistics::empty());
}

#[test]
fn bloom_digest_never_misses_what_was_put_in() {
    let mut digest = BloomDigest::new(8, 4);
    let values: Vec<i64> = (0..200).map(|i| i * 7919 - 300).collect();
    for v in values.iter() {
        digest.insert(bloom_hash(*v));
    }
    for v in values.iter() {
        assert!(digest.may_contain(bloom_hash(*v)));
    }
    let empty = BloomDigest::new(8, 4);
    assert!(!empty.may_contain(bloom_hash(5)));
    let no_words = BloomDigest::new(0, 4);
    assert!(no_words.may_contain(bloom_hash(5)));
}

#[test]
fn bloom_digest_sets_the_probed_bits_only() {
    let mut digest = BloomDigest::new(2, 2);
    digest.insert(0x0000_0003_0000_0005);
    // probe 0 falls on bit 5, probe 1 on bit 8, both in the first word
    assert_eq!(digest.words, vec![(1u64 << 5) | (1u64 << 8), 0]);
    digest.insert(64);
    assert_eq!(digest.words, vec![(1u64 << 5) | (1u64 << 8), 1]);
}

#[test]
fn digests_have_their_exact_values() {
    assert_eq!(bloom_hash(0), fnv64(&0i64.to_le_bytes()));
    assert_eq!(bloom_hash(-1), fnv64(&(-1i64).to_le_bytes()));
    assert_eq!(bloom_hash(0x0102_0304_0506_0708), fnv64(&0x0102_0304_0506_0708i64.to_le_bytes()));
    let mut bytes = Vec::new();
    bytes.extend_from_slice(&5i64.to_le_bytes());
    bytes.extend_from_slice(&(-9i64).to_le_bytes());
    assert_eq!(key_digest(&vec![5, -9]), fnv128(&bytes));
    assert_eq!(key_digest(&vec![]), 0x6c62_272e_07bb_0142_62b8_2175_6295_c58d);
    assert_ne!(key_digest(&vec![5, -9]), key_digest(&vec![-9, 5]));
}

fn fnv64(bytes: &[u8]) -> u64 {
    let mut h: u64 = 0xcbf2_9ce4_8422_2325;
    for b in bytes {
        h = (h ^ (*b as u64)).wrapping_mul(0x0000_0100_0000_01b3);
    }
    h
}

fn fnv128(bytes: &[u8]) -> u128 {
    let mut h: u128 = 0x6c62_272e_07bb_0142_62b8_2175_6295_c58d;
    for b in bytes {
        h = (h ^ (*b as u128)).wrapping_mul(0x0000_0000_0100_0000_0000_0000_0000_013b);
    }
    h
}
