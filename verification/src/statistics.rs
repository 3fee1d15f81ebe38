//! Statistics of columns, blocks and segments: value ranges and counts, and
//! how they are rolled up.

use vstd::prelude::*;

verus! {

/// The least and the greatest value that a column takes in some rows.
#[derive(Clone, Copy, Debug, PartialEq, Eq, Structural)]
pub struct ColumnRange {
    pub min: i64,
    pub max: i64,
}

impl ColumnRange {
    /// The least value is no greater than the greatest. A range that is not
    /// well formed says nothing about the rows.
    pub open spec fn wf(self) -> bool {
        self.min <= self.max
    }

    /// Whether `v` lies in the range.
    pub open spec fn contains(self, v: i64) -> bool {
        self.min <= v <= self.max
    }

    /// The range that says nothing about the rows. It is not well formed.
    pub open spec fn unknown_range() -> ColumnRange {
        ColumnRange { min: i64::MAX, max: i64::MIN }
    }

    /// The least range that holds both `self` and `other`. Where one of
    /// them is not well formed, nothing is known of the rows of both, and
    /// the result is the range that says nothing.
    pub open spec fn union_with(self, other: ColumnRange) -> ColumnRange {
        if self.wf() && other.wf() {
            ColumnRange {
                min: if self.min <= other.min {
                    self.min
                } else {
                    other.min
                },
                max: if self.max >= other.max {
                    self.max
                } else {
                    other.max
                },
            }
        } else {
            ColumnRange::unknown_range()
        }
    }

    /// Whether no value lies in both ranges.
    pub open spec fn disjoint_from(self, other: ColumnRange) -> bool {
        self.max < other.min || other.max < self.min
    }

    /// The range of a single value.
    pub fn point(v: i64) -> (r: ColumnRange)
        ensures
            r == (ColumnRange { min: v, max: v }),
    {
        ColumnRange { min: v, max: v }
    }

    /// The range that says nothing about the rows.
    pub fn unknown() -> (r: ColumnRange)
        ensures
            r == ColumnRange::unknown_range(),
            !r.wf(),
    {
        ColumnRange { min: i64::MAX, max: i64::MIN }
    }

    /// Rolls two ranges up into the least range that holds both, or into
    /// the range that says nothing where one of them is not well formed.
    pub fn rollup(&self, other: &ColumnRange) -> (r: ColumnRange)
        ensures
            r == self.union_with(*other),
    {
        if self.min > self.max || other.min > other.max {
            return ColumnRange::unknown();
        }
        ColumnRange {
            min: if self.min <= other.min {
                self.min
            } else {
                other.min
            },
            max: if self.max >= other.max {
                self.max
            } else {
                other.max
            },
        }
    }

    /// Whether the range is well formed.
    pub fn is_well_formed(&self) -> (r: bool)
        ensures
            r == self.wf(),
    {
        self.min <= self.max
    }

    /// Whether no value lies in both ranges.
    pub fn is_disjoint_from(&self, other: &ColumnRange) -> (r: bool)
        ensures
            r == self.disjoint_from(*other),
    {
        self.max < other.min || other.max < self.min
    }
}

/// The ranges of two lists of columns, rolled up column by column. A column
/// that only one list has is missing from the result: nothing is known of
/// it in the rows of the other.
pub open spec fn rollup_ranges(a: Seq<ColumnRange>, b: Seq<ColumnRange>) -> Seq<ColumnRange> {
    Seq::new(
        if a.len() <= b.len() {
            a.len()
        } else {
            b.len()
        },
        |i: int| a[i].union_with(b[i]),
    )
}

/// Rolls the ranges of two lists of columns up, column by column.
pub fn rollup_column_ranges(a: &Vec<ColumnRange>, b: &Vec<ColumnRange>) -> (r: Vec<ColumnRange>)
    ensures
        r@ == rollup_ranges(a@, b@),
{
    let n: usize = if a.len() <= b.len() {
        a.len()
    } else {
        b.len()
    };
    let mut r: Vec<ColumnRange> = Vec::new();
    let mut i: usize = 0;
    while i < n
        invariant
            i <= n,
            n == rollup_ranges(a@, b@).len(),
            n <= a@.len(),
            n <= b@.len(),
            r@.len() == i,
            forall|j: int| 0 <= j < i ==> r@[j] == rollup_ranges(a@, b@)[j],
        decreases n - i,
    {
        r.push(a[i].rollup(&b[i]));
        i += 1;
    }
    assert(r@ =~= rollup_ranges(a@, b@));
    r
}

/// The sum of two counts, held at the greatest count when it would pass it.
pub open spec fn saturating_sum(a: u64, b: u64) -> u64 {
    if a + b > u64::MAX {
        u64::MAX
    } else {
        (a + b) as u64
    }
}

/// What the rows of some blocks amount to.
#[derive(Clone, Debug, PartialEq, Eq)]
pub struct Statistics {
    /// How many rows.
    pub row_count: u64,
    /// How many blocks.
    pub block_count: u64,
    /// How many bytes the blocks take.
    pub byte_size: u64,
    /// The range of each column, by the column's position.
    pub col_stats: Vec<ColumnRange>,
}

/// `Statistics` with the column ranges as a sequence.
pub struct StatisticsView {
    pub row_count: u64,
    pub block_count: u64,
    pub byte_size: u64,
    pub col_stats: Seq<ColumnRange>,
}

impl View for Statistics {
    type V = StatisticsView;

    open spec fn view(&self) -> StatisticsView {
        StatisticsView {
            row_count: self.row_count,
            block_count: self.block_count,
            byte_size: self.byte_size,
            col_stats: self.col_stats@,
        }
    }
}

/// The statistics of no rows.
pub open spec fn empty_statistics() -> StatisticsView {
    StatisticsView { row_count: 0, block_count: 0, byte_size: 0, col_stats: Seq::empty() }
}

/// The statistics of the rows of `a` and of `b` together: counts are
/// summed, ranges are rolled up column by column. The statistics of no rows
/// change nothing.
pub open spec fn rollup(a: StatisticsView, b: StatisticsView) -> StatisticsView {
    if a == empty_statistics() {
        b
    } else if b == empty_statistics() {
        a
    } else {
        StatisticsView {
            row_count: saturating_sum(a.row_count, b.row_count),
            block_count: saturating_sum(a.block_count, b.block_count),
            byte_size: saturating_sum(a.byte_size, b.byte_size),
            col_stats: rollup_ranges(a.col_stats, b.col_stats),
        }
    }
}

/// The statistics in `parts` rolled up from the first to the last.
pub open spec fn rollup_all(parts: Seq<StatisticsView>) -> StatisticsView
    decreases parts.len(),
{
    if parts.len() == 0 {
        empty_statistics()
    } else {
        rollup(rollup_all(parts.drop_last()), parts.last())
    }
}

impl Statistics {
    /// The statistics of no rows.
    pub fn empty() -> (r: Statistics)
        ensures
            r@ == empty_statistics(),
    {
        Statistics { row_count: 0, block_count: 0, byte_size: 0, col_stats: Vec::new() }
    }

    /// Whether these are the statistics of no rows.
    pub fn is_empty(&self) -> (r: bool)
        ensures
            r == (self@ == empty_statistics()),
    {
        let r = self.row_count == 0 && self.block_count == 0 && self.byte_size == 0
            && self.col_stats.len() == 0;
        proof {
            if r {
                assert(self@.col_stats =~= Seq::empty());
            }
        }
        r
    }

    /// A copy of the statistics.
    pub fn copy(&self) -> (r: Statistics)
        ensures
            r@ == self@,
    {
        Statistics {
            row_count: self.row_count,
            block_count: self.block_count,
            byte_size: self.byte_size,
            col_stats: copy_ranges(&self.col_stats),
        }
    }

    /// Rolls `self` and `other` up into the statistics of the rows of both.
    pub fn rollup(&self, other: &Statistics) -> (r: Statistics)
        ensures
            r@ == rollup(self@, other@),
    {
        if self.is_empty() {
            other.copy()
        } else if other.is_empty() {
            self.copy()
        } else {
            Statistics {
                row_count: self.row_count.saturating_add(other.row_count),
                block_count: self.block_count.saturating_add(other.block_count),
                byte_size: self.byte_size.saturating_add(other.byte_size),
                col_stats: rollup_column_ranges(&self.col_stats, &other.col_stats),
            }
        }
    }
}

/// A copy of a list of ranges.
pub fn copy_ranges(ranges: &Vec<ColumnRange>) -> (r: Vec<ColumnRange>)
    ensures
        r@ == ranges@,
{
    let mut r: Vec<ColumnRange> = Vec::new();
    let mut i: usize = 0;
    while i < ranges.len()
        invariant
            i <= ranges.len(),
            r@ == ranges@.take(i as int),
        decreases ranges.len() - i,
    {
        r.push(ranges[i]);
        i += 1;
    }
    r
}

/// Rolling ranges up does not depend on the order of the two lists.
pub proof fn lemma_rollup_ranges_commutative(a: Seq<ColumnRange>, b: Seq<ColumnRange>)
    ensures
        rollup_ranges(a, b) == rollup_ranges(b, a),
{
    assert(rollup_ranges(a, b) =~= rollup_ranges(b, a));
}

/// Rolling ranges up does not depend on how three lists are grouped.
pub proof fn lemma_rollup_ranges_associative(
    a: Seq<ColumnRange>,
    b: Seq<ColumnRange>,
    c: Seq<ColumnRange>,
)
    ensures
        rollup_ranges(rollup_ranges(a, b), c) == rollup_ranges(a, rollup_ranges(b, c)),
{
    assert(rollup_ranges(rollup_ranges(a, b), c) =~= rollup_ranges(a, rollup_ranges(b, c)));
}

/// Statistics of some rows rolled up are never the statistics of no rows.
pub proof fn lemma_rollup_is_not_empty(a: StatisticsView, b: StatisticsView)
    requires
        a != empty_statistics() || b != empty_statistics(),
    ensures
        rollup(a, b) != empty_statistics(),
{
    if a != empty_statistics() && b != empty_statistics() {
        if rollup(a, b) == empty_statistics() {
            if a.col_stats.len() == 0 {
                assert(a.col_stats =~= Seq::empty());
            } else {
                assert(b.col_stats =~= Seq::empty());
            }
        }
    }
}

/// Rolling statistics up is commutative: the order of the two parts does
/// not matter.
pub proof fn lemma_rollup_commutative(a: StatisticsView, b: StatisticsView)
    ensures
        rollup(a, b) == rollup(b, a),
{
    lemma_rollup_ranges_commutative(a.col_stats, b.col_stats);
}

/// Rolling statistics up is associative: partial rollups made in any
/// grouping come to the same result.
pub proof fn lemma_rollup_associative(a: StatisticsView, b: StatisticsView, c: StatisticsView)
    ensures
        rollup(rollup(a, b), c) == rollup(a, rollup(b, c)),
{
    let e = empty_statistics();
    if a != e && b != e && c != e {
        lemma_rollup_is_not_empty(a, b);
        lemma_rollup_is_not_empty(b, c);
        lemma_rollup_ranges_associative(a.col_stats, b.col_stats, c.col_stats);
    }
}

/// The statistics of no rows change nothing when rolled up with others.
pub proof fn lemma_rollup_empty(a: StatisticsView)
    ensures
        rollup(empty_statistics(), a) == a,
        rollup(a, empty_statistics()) == a,
{
}

/// The rollup of a list of parts is the rollup of the rollups of its two
/// halves, wherever the list is cut.
pub proof fn lemma_rollup_all_concat(a: Seq<StatisticsView>, b: Seq<StatisticsView>)
    ensures
        rollup_all(a + b) == rollup(rollup_all(a), rollup_all(b)),
    decreases b.len(),
{
    if b.len() == 0 {
        lemma_rollup_empty(rollup_all(a));
    } else {
        assert((a + b).drop_last() =~= a + b.drop_last());
        lemma_rollup_all_concat(a, b.drop_last());
        lemma_rollup_associative(rollup_all(a), rollup_all(b.drop_last()), b.last());
    }
}

} // verus!
