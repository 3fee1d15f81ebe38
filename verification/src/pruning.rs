//! The pruning engine: which segments and blocks a scan has to read, decided
//! from their statistics alone. A segment or block is dropped only where its
//! statistics prove that none of its rows meets the predicate.

use vstd::prelude::*;
use crate::bloom::BloomDigest;
use crate::digest::{bloom_hash, bloom_hash_of};
use crate::segment::{
    lemma_summary_admits, row_admitted, row_in_digests, BlockMeta, SegmentInfo,
};
use crate::statistics::{saturating_sum, ColumnRange};

verus! {

/// What a predicate asks of one column.
#[derive(Clone, Copy, Debug, PartialEq, Eq)]
pub enum Condition {
    /// The value of column `column` lies between `low` and `high`, both
    /// included.
    Range { column: usize, low: i64, high: i64 },
    /// The value of column `column` is `value`.
    Equals { column: usize, value: i64 },
}

impl Condition {
    /// The column that the condition is about.
    pub open spec fn column(self) -> usize {
        match self {
            Condition::Range { column, .. } => column,
            Condition::Equals { column, .. } => column,
        }
    }

    /// The least value that meets the condition.
    pub open spec fn low(self) -> i64 {
        match self {
            Condition::Range { low, .. } => low,
            Condition::Equals { value, .. } => value,
        }
    }

    /// The greatest value that meets the condition.
    pub open spec fn high(self) -> i64 {
        match self {
            Condition::Range { high, .. } => high,
            Condition::Equals { value, .. } => value,
        }
    }

    /// Whether `row` meets the condition.
    pub open spec fn holds_on(self, row: Seq<i64>) -> bool {
        self.column() < row.len() && self.low() <= row[self.column() as int] <= self.high()
    }

    /// Whether `ranges` prove that no row within them meets the condition:
    /// the range of the column is there, is well formed, and holds no value
    /// that meets the condition.
    pub open spec fn excluded_by_ranges(self, ranges: Seq<ColumnRange>) -> bool {
        &&& self.column() < ranges.len()
        &&& ranges[self.column() as int].wf()
        &&& (ranges[self.column() as int].max < self.low() || self.high()
            < ranges[self.column() as int].min)
    }

    /// Whether `bloom` proves that no row in its digests meets the
    /// condition: the condition asks for one value, the column has a digest,
    /// and the value's hash is not in it.
    pub open spec fn excluded_by_bloom(self, bloom: Seq<Option<BloomDigest>>) -> bool {
        &&& self is Equals
        &&& self.column() < bloom.len()
        &&& bloom[self.column() as int] matches Some(d) && !d.may_contain_spec(
            bloom_hash_of(self.low()),
        )
    }

    /// Decides whether the ranges rule the condition out.
    pub fn is_excluded_by_ranges(&self, ranges: &Vec<ColumnRange>) -> (r: bool)
        ensures
            r == self.excluded_by_ranges(ranges@),
    {
        let (column, low, high) = match self {
            Condition::Range { column, low, high } => (*column, *low, *high),
            Condition::Equals { column, value } => (*column, *value, *value),
        };
        if column >= ranges.len() {
            return false;
        }
        let range = &ranges[column];
        range.min <= range.max && (range.max < low || high < range.min)
    }

    /// Decides whether the bloom digests rule the condition out.
    pub fn is_excluded_by_bloom(&self, bloom: &Vec<Option<BloomDigest>>) -> (r: bool)
        ensures
            r == self.excluded_by_bloom(bloom@),
    {
        match self {
            Condition::Range { .. } => false,
            Condition::Equals { column, value } => {
                if *column >= bloom.len() {
                    return false;
                }
                match &bloom[*column] {
                    Some(digest) => !digest.may_contain(bloom_hash(*value)),
                    None => false,
                }
            },
        }
    }
}

/// A predicate of a scan: all of its conditions at once.
#[derive(Clone, Debug, PartialEq, Eq)]
pub struct Predicate {
    pub conditions: Vec<Condition>,
}

impl Predicate {
    /// Whether `row` meets every condition.
    pub open spec fn holds_on(&self, row: Seq<i64>) -> bool {
        forall|i: int| 0 <= i < self.conditions@.len() ==> (#[trigger] self.conditions@[i]).holds_on(row)
    }

    /// Whether `ranges` rule out one of the conditions.
    pub open spec fn excluded_by_ranges(&self, ranges: Seq<ColumnRange>) -> bool {
        exists|i: int|
            0 <= i < self.conditions@.len() && (#[trigger] self.conditions@[i]).excluded_by_ranges(
                ranges,
            )
    }

    /// Whether `bloom` rules out one of the conditions.
    pub open spec fn excluded_by_bloom(&self, bloom: Seq<Option<BloomDigest>>) -> bool {
        exists|i: int|
            0 <= i < self.conditions@.len() && (#[trigger] self.conditions@[i]).excluded_by_bloom(
                bloom,
            )
    }

    /// Whether a segment stays: its summary does not rule the predicate out.
    pub open spec fn keeps_segment(&self, segment: &SegmentInfo) -> bool {
        !self.excluded_by_ranges(segment.summary.col_stats@)
    }

    /// Whether a block passes the range pass.
    pub open spec fn keeps_block_by_range(&self, block: &BlockMeta) -> bool {
        !self.excluded_by_ranges(block.col_stats@)
    }

    /// Whether a block passes both passes.
    pub open spec fn keeps_block(&self, block: &BlockMeta) -> bool {
        self.keeps_block_by_range(block) && !self.excluded_by_bloom(block.bloom@)
    }

    /// Range pass: decides whether the ranges rule the predicate out.
    pub fn is_excluded_by_ranges(&self, ranges: &Vec<ColumnRange>) -> (r: bool)
        ensures
            r == self.excluded_by_ranges(ranges@),
    {
        let mut i: usize = 0;
        while i < self.conditions.len()
            invariant
                i <= self.conditions.len(),
                forall|j: int| 0 <= j < i ==> !(#[trigger] self.conditions@[j]).excluded_by_ranges(ranges@),
            decreases self.conditions.len() - i,
        {
            if self.conditions[i].is_excluded_by_ranges(ranges) {
                return true;
            }
            i += 1;
        }
        false
    }

    /// Bloom pass: decides whether the digests rule the predicate out.
    pub fn is_excluded_by_bloom(&self, bloom: &Vec<Option<BloomDigest>>) -> (r: bool)
        ensures
            r == self.excluded_by_bloom(bloom@),
    {
        let mut i: usize = 0;
        while i < self.conditions.len()
            invariant
                i <= self.conditions.len(),
                forall|j: int| 0 <= j < i ==> !(#[trigger] self.conditions@[j]).excluded_by_bloom(bloom@),
            decreases self.conditions.len() - i,
        {
            if self.conditions[i].is_excluded_by_bloom(bloom) {
                return true;
            }
            i += 1;
        }
        false
    }
}

/// Range pruning is sound: where ranges rule a predicate out, no row that
/// the ranges admit meets it.
pub proof fn lemma_range_pruning_sound(
    predicate: Predicate,
    ranges: Seq<ColumnRange>,
    row: Seq<i64>,
)
    requires
        predicate.excluded_by_ranges(ranges),
        row_admitted(row, ranges),
    ensures
        !predicate.holds_on(row),
{
}

/// Bloom pruning is sound: where digests rule a predicate out, no row whose
/// values were put into the digests meets it.
pub proof fn lemma_bloom_pruning_sound(
    predicate: Predicate,
    bloom: Seq<Option<BloomDigest>>,
    row: Seq<i64>,
)
    requires
        predicate.excluded_by_bloom(bloom),
        row_in_digests(row, bloom),
    ensures
        !predicate.holds_on(row),
{
}

/// Statistics that are not well formed never discard: a range whose least
/// value is above its greatest rules nothing out.
pub proof fn lemma_malformed_range_retains(condition: Condition, ranges: Seq<ColumnRange>)
    requires
        condition.column() < ranges.len() ==> !ranges[condition.column() as int].wf(),
    ensures
        !condition.excluded_by_ranges(ranges),
{
}

/// Pruning discards no block that holds a match: a block of a segment that
/// the predicate rules out by the segment's summary, by the block's ranges
/// or by its digests holds no row that meets the predicate, as long as the
/// block's own statistics admit its rows.
pub proof fn lemma_discarded_block_has_no_match(
    predicate: Predicate,
    segment: SegmentInfo,
    b: int,
    row: Seq<i64>,
)
    requires
        segment.wf(),
        0 <= b < segment.blocks@.len(),
        !(predicate.keeps_segment(&segment) && predicate.keeps_block(&segment.blocks@[b])),
        row_admitted(row, segment.blocks@[b].col_stats@),
        row_in_digests(row, segment.blocks@[b].bloom@),
    ensures
        !predicate.holds_on(row),
{
    let block = segment.blocks@[b];
    if !predicate.keeps_segment(&segment) {
        lemma_summary_admits(segment.blocks@, b, row);
        lemma_range_pruning_sound(predicate, segment.summary.col_stats@, row);
    } else if !predicate.keeps_block_by_range(&block) {
        lemma_range_pruning_sound(predicate, block.col_stats@, row);
    } else {
        lemma_bloom_pruning_sound(predicate, block.bloom@, row);
    }
}

/// What `prune` leaves out holds no match: a block whose place is not in the
/// result holds no row that meets the predicate, as long as the block's own
/// statistics admit its rows.
pub proof fn lemma_pruned_block_has_no_match(
    predicate: Predicate,
    segments: Seq<SegmentInfo>,
    kept: Seq<(usize, usize)>,
    s: int,
    b: int,
    row: Seq<i64>,
)
    requires
        is_pruning_result(&predicate, segments, segments.len() as int, kept),
        0 <= s < segments.len(),
        segments[s].wf(),
        0 <= b < segments[s].blocks@.len(),
        forall|k: int| 0 <= k < kept.len() ==> #[trigger] kept[k] != (s as usize, b as usize),
        row_admitted(row, segments[s].blocks@[b].col_stats@),
        row_in_digests(row, segments[s].blocks@[b].bloom@),
    ensures
        !predicate.holds_on(row),
{
    if survives(&predicate, segments, s, b) {
        let k = choose|k: int| 0 <= k < kept.len() && #[trigger] kept[k] == (s as usize, b as usize);
        assert(kept[k] != (s as usize, b as usize));
    }
    lemma_discarded_block_has_no_match(predicate, segments[s], b, row);
}

/// A segment with a block whose statistics are not well formed, or are
/// missing, in the column of a condition is not dropped on that condition:
/// its summary says nothing of the column.
pub proof fn lemma_malformed_block_retains_segment(
    condition: Condition,
    segment: SegmentInfo,
    b: int,
)
    requires
        segment.wf(),
        0 <= b < segment.blocks@.len(),
        condition.column() < segment.blocks@[b].col_stats@.len() ==> !segment.blocks@[b].col_stats@[condition.column() as int].wf(),
    ensures
        !condition.excluded_by_ranges(segment.summary.col_stats@),
{
    crate::segment::lemma_summary_keeps_unknown(segment.blocks@, b, condition.column() as int);
}

/// The counters of the pruning engine. Each only ever grows; one that has
/// reached the greatest count stays there.
#[derive(Debug, PartialEq, Eq)]
pub struct FusePruningStatistics {
    /// Segments that came to the range pass.
    pub segments_range_pruning_before: u64,
    /// Segments that the range pass kept.
    pub segments_range_pruning_after: u64,
    /// Blocks that came to the range pass.
    pub blocks_range_pruning_before: u64,
    /// Blocks that the range pass kept.
    pub blocks_range_pruning_after: u64,
    /// Blocks that came to the bloom pass.
    pub blocks_bloom_pruning_before: u64,
    /// Blocks that the bloom pass kept.
    pub blocks_bloom_pruning_after: u64,
}

impl Default for FusePruningStatistics {
    fn default() -> (r: FusePruningStatistics)
        ensures
            r.segments_range_pruning_before == 0,
            r.segments_range_pruning_after == 0,
            r.blocks_range_pruning_before == 0,
            r.blocks_range_pruning_after == 0,
            r.blocks_bloom_pruning_before == 0,
            r.blocks_bloom_pruning_after == 0,
    {
        FusePruningStatistics {
            segments_range_pruning_before: 0,
            segments_range_pruning_after: 0,
            blocks_range_pruning_before: 0,
            blocks_range_pruning_after: 0,
            blocks_bloom_pruning_before: 0,
            blocks_bloom_pruning_after: 0,
        }
    }
}

/// A count as a counter takes it: held at the greatest count.
pub open spec fn saturated(n: nat) -> u64 {
    if n > u64::MAX {
        u64::MAX
    } else {
        n as u64
    }
}

/// How many of the first `upto` segments the predicate keeps.
pub open spec fn kept_segments(predicate: &Predicate, segments: Seq<SegmentInfo>, upto: int) -> nat
    decreases upto,
{
    if upto <= 0 {
        0
    } else {
        kept_segments(predicate, segments, upto - 1) + if predicate.keeps_segment(
            &segments[upto - 1],
        ) {
            1nat
        } else {
            0nat
        }
    }
}

/// How many blocks the kept ones of the first `upto` segments hold.
pub open spec fn candidate_blocks(predicate: &Predicate, segments: Seq<SegmentInfo>, upto: int) -> nat
    decreases upto,
{
    if upto <= 0 {
        0
    } else {
        candidate_blocks(predicate, segments, upto - 1) + if predicate.keeps_segment(
            &segments[upto - 1],
        ) {
            segments[upto - 1].blocks@.len()
        } else {
            0nat
        }
    }
}

/// How many of the first `upto` blocks pass the range pass.
pub open spec fn range_kept_in(predicate: &Predicate, blocks: Seq<BlockMeta>, upto: int) -> nat
    decreases upto,
{
    if upto <= 0 {
        0
    } else {
        range_kept_in(predicate, blocks, upto - 1) + if predicate.keeps_block_by_range(
            &blocks[upto - 1],
        ) {
            1nat
        } else {
            0nat
        }
    }
}

/// How many of the first `upto` blocks pass both passes.
pub open spec fn kept_in(predicate: &Predicate, blocks: Seq<BlockMeta>, upto: int) -> nat
    decreases upto,
{
    if upto <= 0 {
        0
    } else {
        kept_in(predicate, blocks, upto - 1) + if predicate.keeps_block(&blocks[upto - 1]) {
            1nat
        } else {
            0nat
        }
    }
}

/// How many blocks of the kept ones of the first `upto` segments pass the
/// range pass.
pub open spec fn range_kept_blocks(predicate: &Predicate, segments: Seq<SegmentInfo>, upto: int) -> nat
    decreases upto,
{
    if upto <= 0 {
        0
    } else {
        range_kept_blocks(predicate, segments, upto - 1) + if predicate.keeps_segment(
            &segments[upto - 1],
        ) {
            range_kept_in(
                predicate,
                segments[upto - 1].blocks@,
                segments[upto - 1].blocks@.len() as int,
            )
        } else {
            0nat
        }
    }
}

/// How many blocks of the kept ones of the first `upto` segments pass both
/// passes.
pub open spec fn kept_blocks(predicate: &Predicate, segments: Seq<SegmentInfo>, upto: int) -> nat
    decreases upto,
{
    if upto <= 0 {
        0
    } else {
        kept_blocks(predicate, segments, upto - 1) + if predicate.keeps_segment(
            &segments[upto - 1],
        ) {
            kept_in(
                predicate,
                segments[upto - 1].blocks@,
                segments[upto - 1].blocks@.len() as int,
            )
        } else {
            0nat
        }
    }
}

/// Whether the block `b` of segment `s` survives pruning.
pub open spec fn survives(predicate: &Predicate, segments: Seq<SegmentInfo>, s: int, b: int) -> bool {
    &&& 0 <= s < segments.len()
    &&& 0 <= b < segments[s].blocks@.len()
    &&& predicate.keeps_segment(&segments[s])
    &&& predicate.keeps_block(&segments[s].blocks@[b])
}

/// Whether `(s1, b1)` comes before `(s2, b2)` in the order of the table.
pub open spec fn comes_before(first: (usize, usize), second: (usize, usize)) -> bool {
    first.0 < second.0 || (first.0 == second.0 && first.1 < second.1)
}

/// `kept` lists, in the order of the table and each once, exactly the
/// blocks of the first `upto` segments that survive pruning.
pub open spec fn is_pruning_result(
    predicate: &Predicate,
    segments: Seq<SegmentInfo>,
    upto: int,
    kept: Seq<(usize, usize)>,
) -> bool {
    &&& forall|k: int|
        0 <= k < kept.len() ==> (#[trigger] kept[k]).0 < upto && survives(
            predicate,
            segments,
            kept[k].0 as int,
            kept[k].1 as int,
        )
    &&& forall|s: int, b: int|
        0 <= s < upto && #[trigger] survives(predicate, segments, s, b) ==> exists|k: int|
            0 <= k < kept.len() && #[trigger] kept[k] == (s as usize, b as usize)
    &&& forall|j: int, k: int|
        0 <= j < k < kept.len() ==> comes_before(#[trigger] kept[j], #[trigger] kept[k])
}

/// Adds `n` to a counter, holding it at the greatest count.
fn bump(counter: u64, n: usize) -> (r: u64)
    ensures
        r == saturating_sum(counter, saturated(n as nat)),
        r >= counter,
{
    counter.saturating_add(n as u64)
}

/// Prunes the blocks of `segments` by `predicate`.
///
/// First the range pass drops each segment whose summary rules the
/// predicate out, and of the others each block whose own ranges do. Then the
/// bloom pass drops each block left whose digests rule the predicate out.
/// What is returned are the places `(segment, block)` of the blocks that
/// are left, in the order of the table. Each counter grows by what came to
/// its pass or by what the pass kept, once; none ever shrinks.
pub fn prune(
    predicate: &Predicate,
    segments: &Vec<SegmentInfo>,
    statistics: &mut FusePruningStatistics,
) -> (kept: Vec<(usize, usize)>)
    ensures
        is_pruning_result(predicate, segments@, segments@.len() as int, kept@),
        kept@.len() == kept_blocks(predicate, segments@, segments@.len() as int),
        final(statistics).segments_range_pruning_before == saturating_sum(
            old(statistics).segments_range_pruning_before,
            saturated(segments@.len()),
        ),
        final(statistics).segments_range_pruning_after == saturating_sum(
            old(statistics).segments_range_pruning_after,
            saturated(kept_segments(predicate, segments@, segments@.len() as int)),
        ),
        final(statistics).blocks_range_pruning_before == saturating_sum(
            old(statistics).blocks_range_pruning_before,
            saturated(candidate_blocks(predicate, segments@, segments@.len() as int)),
        ),
        final(statistics).blocks_range_pruning_after == saturating_sum(
            old(statistics).blocks_range_pruning_after,
            saturated(range_kept_blocks(predicate, segments@, segments@.len() as int)),
        ),
        final(statistics).blocks_bloom_pruning_before == saturating_sum(
            old(statistics).blocks_bloom_pruning_before,
            saturated(range_kept_blocks(predicate, segments@, segments@.len() as int)),
        ),
        final(statistics).blocks_bloom_pruning_after == saturating_sum(
            old(statistics).blocks_bloom_pruning_after,
            saturated(kept@.len()),
        ),
        final(statistics).segments_range_pruning_before >= old(
            statistics,
        ).segments_range_pruning_before,
        final(statistics).segments_range_pruning_after >= old(
            statistics,
        ).segments_range_pruning_after,
        final(statistics).blocks_range_pruning_before >= old(
            statistics,
        ).blocks_range_pruning_before,
        final(statistics).blocks_range_pruning_after >= old(
            statistics,
        ).blocks_range_pruning_after,
        final(statistics).blocks_bloom_pruning_before >= old(
            statistics,
        ).blocks_bloom_pruning_before,
        final(statistics).blocks_bloom_pruning_after >= old(
            statistics,
        ).blocks_bloom_pruning_after,
{
    let mut kept: Vec<(usize, usize)> = Vec::new();
    let mut segments_after: u64 = 0;
    let mut blocks_before: u64 = 0;
    let mut blocks_after: u64 = 0;
    let mut s: usize = 0;
    while s < segments.len()
        invariant
            s <= segments.len(),
            is_pruning_result(predicate, segments@, s as int, kept@),
            kept@.len() == kept_blocks(predicate, segments@, s as int),
            segments_after == saturated(kept_segments(predicate, segments@, s as int)),
            blocks_before == saturated(candidate_blocks(predicate, segments@, s as int)),
            blocks_after == saturated(range_kept_blocks(predicate, segments@, s as int)),
        decreases segments.len() - s,
    {
        let segment = &segments[s];
        if !predicate.is_excluded_by_ranges(&segment.summary.col_stats) {
            segments_after = segments_after.saturating_add(1);
            blocks_before = blocks_before.saturating_add(segment.blocks.len() as u64);
            let ghost kept_before = kept@;
            let mut passed_range: u64 = 0;
            let mut b: usize = 0;
            while b < segment.blocks.len()
                invariant
                    s < segments.len(),
                    *segment == segments@[s as int],
                    predicate.keeps_segment(segment),
                    b <= segment.blocks.len(),
                    is_pruning_result(predicate, segments@, s as int, kept_before),
                    kept_before.len() <= kept@.len(),
                    kept@.take(kept_before.len() as int) == kept_before,
                    kept@.len() == kept_before.len() + kept_in(predicate, segment.blocks@, b as int),
                    passed_range == saturated(range_kept_in(predicate, segment.blocks@, b as int)),
                    forall|k: int|
                        kept_before.len() <= k < kept@.len() ==> (#[trigger] kept@[k]).0 == s
                            && kept@[k].1 < b && predicate.keeps_block(
                            &segment.blocks@[kept@[k].1 as int],
                        ),
                    forall|c: int|
                        0 <= c < b && predicate.keeps_block(&#[trigger] segment.blocks@[c])
                            ==> exists|k: int|
                            kept_before.len() <= k < kept@.len() && #[trigger] kept@[k] == (
                                s,
                                c as usize,
                            ),
                    forall|j: int, k: int|
                        kept_before.len() <= j < k < kept@.len() ==> (#[trigger] kept@[j]).1 < (
                        #[trigger] kept@[k]).1,
                decreases segment.blocks.len() - b,
            {
                let block = &segment.blocks[b];
                if !predicate.is_excluded_by_ranges(&block.col_stats) {
                    passed_range = passed_range.saturating_add(1);
                    if !predicate.is_excluded_by_bloom(&block.bloom) {
                        let ghost prior = kept@;
                        kept.push((s, b));
                        proof {
                            assert(kept@.take(kept_before.len() as int) =~= prior.take(
                                kept_before.len() as int,
                            ));
                            assert forall|c: int|
                                0 <= c < b + 1 && predicate.keeps_block(
                                    &#[trigger] segment.blocks@[c],
                                ) implies exists|k: int|
                                kept_before.len() <= k < kept@.len() && #[trigger] kept@[k] == (
                                    s,
                                    c as usize,
                                ) by {
                                if c < b {
                                    let k = choose|k: int|
                                        kept_before.len() <= k < prior.len() && #[trigger] prior[k]
                                            == (s, c as usize);
                                    assert(kept@[k] == (s, c as usize));
                                } else {
                                    assert(kept@[prior.len() as int] == (s, c as usize));
                                }
                            }
                        }
                    }
                }
                b += 1;
            }
            blocks_after = blocks_after.saturating_add(passed_range);
            proof {
                lemma_extend_result(predicate, segments@, s as int, kept_before, kept@);
            }
        }
        s += 1;
    }
    statistics.segments_range_pruning_before = bump(
        statistics.segments_range_pruning_before,
        segments.len(),
    );
    statistics.segments_range_pruning_after = statistics.segments_range_pruning_after.saturating_add(
        segments_after,
    );
    statistics.blocks_range_pruning_before = statistics.blocks_range_pruning_before.saturating_add(
        blocks_before,
    );
    statistics.blocks_range_pruning_after = statistics.blocks_range_pruning_after.saturating_add(
        blocks_after,
    );
    statistics.blocks_bloom_pruning_before = statistics.blocks_bloom_pruning_before.saturating_add(
        blocks_after,
    );
    statistics.blocks_bloom_pruning_after = bump(statistics.blocks_bloom_pruning_after, kept.len());
    kept
}

/// The blocks kept of segment `s`, put behind the blocks kept of the
/// segments before it, are the blocks kept of the segments up to `s`.
proof fn lemma_extend_result(
    predicate: &Predicate,
    segments: Seq<SegmentInfo>,
    s: int,
    before: Seq<(usize, usize)>,
    kept: Seq<(usize, usize)>,
)
    requires
        0 <= s < segments.len(),
        s <= usize::MAX,
        predicate.keeps_segment(&segments[s]),
        is_pruning_result(predicate, segments, s, before),
        before.len() <= kept.len(),
        kept.take(before.len() as int) == before,
        forall|k: int|
            before.len() <= k < kept.len() ==> (#[trigger] kept[k]).0 == s && kept[k].1
                < segments[s].blocks@.len() && predicate.keeps_block(
                &segments[s].blocks@[kept[k].1 as int],
            ),
        forall|c: int|
            0 <= c < segments[s].blocks@.len() && predicate.keeps_block(
                &#[trigger] segments[s].blocks@[c],
            ) ==> exists|k: int|
                before.len() <= k < kept.len() && #[trigger] kept[k] == (s as usize, c as usize),
        forall|j: int, k: int|
            before.len() <= j < k < kept.len() ==> (#[trigger] kept[j]).1 < (#[trigger] kept[k]).1,
    ensures
        is_pruning_result(predicate, segments, s + 1, kept),
{
    assert forall|k: int| 0 <= k < kept.len() implies (#[trigger] kept[k]).0 < s + 1 && survives(
        predicate,
        segments,
        kept[k].0 as int,
        kept[k].1 as int,
    ) by {
        if k < before.len() {
            assert(kept[k] == before[k]);
        }
    }
    assert forall|j: int, k: int| 0 <= j < k < kept.len() implies comes_before(
        #[trigger] kept[j],
        #[trigger] kept[k],
    ) by {
        if k < before.len() {
            assert(kept[j] == before[j]);
            assert(kept[k] == before[k]);
        } else if j < before.len() {
            assert(kept[j] == before[j]);
        }
    }
}

} // verus!
