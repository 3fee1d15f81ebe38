//! Blocks and segments: where the rows of a table are kept, and what is
//! known of them without reading them.

use vstd::prelude::*;
use crate::bloom::BloomDigest;
use crate::digest::bloom_hash_of;
use crate::statistics::{
    copy_ranges, empty_statistics, lemma_rollup_is_not_empty, rollup, rollup_all, ColumnRange,
    Statistics, StatisticsView,
};

verus! {

/// A block: one object of the store, which holds some rows of a table.
#[derive(Clone, Debug, PartialEq, Eq)]
pub struct BlockMeta {
    /// The key of the block's object.
    pub location: String,
    /// How many rows the block holds.
    pub row_count: u64,
    /// How many bytes the block takes.
    pub block_size: u64,
    /// The range of each column in the block, by the column's position.
    pub col_stats: Vec<ColumnRange>,
    /// The bloom digest of each column, by the column's position; `None`
    /// for a column that has none.
    pub bloom: Vec<Option<BloomDigest>>,
}

/// A segment: the blocks that one write produced, with their statistics
/// rolled up.
#[derive(Clone, Debug, PartialEq, Eq)]
pub struct SegmentInfo {
    /// The key of the segment's object.
    pub location: String,
    /// The blocks, in the order in which they were written.
    pub blocks: Vec<BlockMeta>,
    /// The statistics of all the blocks together.
    pub summary: Statistics,
}

impl BlockMeta {
    /// What the block adds to the statistics of its segment.
    pub open spec fn statistics(&self) -> StatisticsView {
        StatisticsView {
            row_count: self.row_count,
            block_count: 1,
            byte_size: self.block_size,
            col_stats: self.col_stats@,
        }
    }
}

/// The statistics of each of the blocks, in their order.
pub open spec fn block_statistics(blocks: Seq<BlockMeta>) -> Seq<StatisticsView> {
    Seq::new(blocks.len(), |i: int| blocks[i].statistics())
}

/// Whether `ranges` admit `row`: every value of the row lies in the range
/// of its column, unless the range is missing or not well formed, and so
/// says nothing.
pub open spec fn row_admitted(row: Seq<i64>, ranges: Seq<ColumnRange>) -> bool {
    forall|c: int|
        0 <= c < row.len() && c < ranges.len() && (#[trigger] ranges[c]).wf() ==> ranges[c].contains(
            row[c],
        )
}

/// Every value of `row` in a column that has a bloom digest was put into
/// that digest.
pub open spec fn row_in_digests(row: Seq<i64>, bloom: Seq<Option<BloomDigest>>) -> bool {
    forall|c: int|
        0 <= c < row.len() && c < bloom.len() ==> ((#[trigger] bloom[c]) matches Some(d)
            ==> d.may_contain_spec(bloom_hash_of(row[c])))
}

impl SegmentInfo {
    /// The summary is the rollup of the statistics of the blocks.
    pub open spec fn wf(&self) -> bool {
        self.summary@ == rollup_all(block_statistics(self.blocks@))
    }

    /// Makes a segment of `blocks`, with their statistics rolled up.
    pub fn new(location: String, blocks: Vec<BlockMeta>) -> (segment: SegmentInfo)
        ensures
            segment.location == location,
            segment.blocks == blocks,
            segment.wf(),
    {
        let mut summary = Statistics::empty();
        let mut i: usize = 0;
        while i < blocks.len()
            invariant
                i <= blocks.len(),
                summary@ == rollup_all(block_statistics(blocks@).take(i as int)),
            decreases blocks.len() - i,
        {
            let block = &blocks[i];
            let one = Statistics {
                row_count: block.row_count,
                block_count: 1,
                byte_size: block.block_size,
                col_stats: copy_ranges(&block.col_stats),
            };
            summary = summary.rollup(&one);
            proof {
                let all = block_statistics(blocks@);
                assert(all.take(i + 1).drop_last() =~= all.take(i as int));
            }
            i += 1;
        }
        proof {
            let all = block_statistics(blocks@);
            assert(all.take(blocks.len() as int) =~= all);
        }
        SegmentInfo { location, blocks, summary }
    }
}

/// A row that the ranges of one part admit is admitted by the ranges of the
/// rollup, for a part that is the statistics of some rows.
pub proof fn lemma_row_admitted_by_rollup(row: Seq<i64>, a: StatisticsView, b: StatisticsView)
    requires
        row_admitted(row, a.col_stats),
        a != empty_statistics(),
    ensures
        row_admitted(row, rollup(a, b).col_stats),
        row_admitted(row, rollup(b, a).col_stats),
{
}

/// The statistics of some blocks rolled up are not the statistics of no
/// rows.
pub proof fn lemma_rollup_of_blocks_is_not_empty(blocks: Seq<BlockMeta>)
    requires
        blocks.len() > 0,
    ensures
        rollup_all(block_statistics(blocks)) != empty_statistics(),
{
    let parts = block_statistics(blocks);
    lemma_rollup_is_not_empty(rollup_all(parts.drop_last()), parts.last());
}

/// A segment's summary admits every row that the statistics of one of its
/// blocks admit: the summary rules out no row that a block may hold.
pub proof fn lemma_summary_admits(blocks: Seq<BlockMeta>, b: int, row: Seq<i64>)
    requires
        0 <= b < blocks.len(),
        row_admitted(row, blocks[b].col_stats@),
    ensures
        row_admitted(row, rollup_all(block_statistics(blocks)).col_stats),
    decreases blocks.len(),
{
    let parts = block_statistics(blocks);
    let front = blocks.drop_last();
    assert(parts.drop_last() =~= block_statistics(front));
    if b == blocks.len() - 1 {
        lemma_row_admitted_by_rollup(row, parts.last(), rollup_all(parts.drop_last()));
    } else {
        lemma_summary_admits(front, b, row);
        lemma_rollup_of_blocks_is_not_empty(front);
        lemma_row_admitted_by_rollup(row, rollup_all(parts.drop_last()), parts.last());
    }
}

/// Rolled up with anything, a column that a part of some rows is missing,
/// or has no well-formed range of, stays so.
pub proof fn lemma_rollup_keeps_unknown(a: StatisticsView, b: StatisticsView, c: int)
    requires
        0 <= c,
        a != empty_statistics(),
        c < a.col_stats.len() ==> !a.col_stats[c].wf(),
    ensures
        c < rollup(a, b).col_stats.len() ==> !rollup(a, b).col_stats[c].wf(),
        c < rollup(b, a).col_stats.len() ==> !rollup(b, a).col_stats[c].wf(),
{
}

/// A column that one block of a segment is missing, or has no well-formed
/// range of, has no well-formed range in the segment's summary.
pub proof fn lemma_summary_keeps_unknown(blocks: Seq<BlockMeta>, b: int, c: int)
    requires
        0 <= b < blocks.len(),
        0 <= c,
        c < blocks[b].col_stats@.len() ==> !blocks[b].col_stats@[c].wf(),
    ensures
        ({
            let summary = rollup_all(block_statistics(blocks)).col_stats;
            c < summary.len() ==> !summary[c].wf()
        }),
    decreases blocks.len(),
{
    let parts = block_statistics(blocks);
    let front = blocks.drop_last();
    assert(parts.drop_last() =~= block_statistics(front));
    if b == blocks.len() - 1 {
        lemma_rollup_keeps_unknown(parts.last(), rollup_all(parts.drop_last()), c);
    } else {
        lemma_summary_keeps_unknown(front, b, c);
        lemma_rollup_of_blocks_is_not_empty(front);
        lemma_rollup_keeps_unknown(rollup_all(parts.drop_last()), parts.last(), c);
    }
}

} // verus!
