//! The mutation conflict resolver: for rows that are to replace rows of the
//! same key, which blocks of the table may hold such rows, and by which
//! digests the rows to delete are found in them.

use std::collections::HashSet;
use vstd::prelude::*;
use vstd::string::*;
use crate::bloom::BloomDigest;
use crate::digest::{bloom_hash, bloom_hash_of, key_digest, key_digest_of};
use crate::segment::row_admitted;
use crate::statistics::ColumnRange;

verus! {

/// The content digest of a row's key.
pub type UniqueKeyDigest = u128;

/// The bloom hashes of one key column, one for each row.
pub type RowBloomHashes = Vec<u64>;

/// The builder of ahash's hashers, which keys a set of digests.
#[verifier::external_type_specification]
#[verifier::external_body]
pub struct ExRandomState(ahash::RandomState);

/// What is to be deleted from one block: the rows whose key is that of one
/// of the new rows.
#[derive(Debug, PartialEq)]
pub struct DeletionByColumn {
    /// The least and greatest value of each key column among the new rows.
    pub columns_min_max: Vec<(i64, i64)>,
    /// The key digests of the new rows. A row of the block is deleted only
    /// if its key is found to be equal to a new row's; an equal digest alone
    /// does not delete it.
    pub key_hashes: HashSet<UniqueKeyDigest, ahash::RandomState>,
    /// The bloom hashes of each key column among the new rows.
    pub bloom_hashes: Vec<RowBloomHashes>,
}

/// What goes with a batch of new rows.
#[derive(Debug, PartialEq)]
pub enum ReplaceIntoOperation {
    /// Deletions, one for each block that may hold rows of the same keys.
    Delete(Vec<DeletionByColumn>),
    /// Nothing to delete.
    Nothing,
}

/// `ahash::HashSet::default`: a set that holds nothing.
#[verifier::external_body]
fn new_digest_set() -> (set: HashSet<u128, ahash::RandomState>)
    ensures
        set@ == Set::<u128>::empty(),
{
    ahash::HashSet::default()
}

/// `HashSet::insert` on a set keyed by ahash: afterwards the set holds the
/// digest besides what it held.
#[verifier::external_body]
fn digest_set_insert(set: &mut HashSet<u128, ahash::RandomState>, digest: u128)
    ensures
        final(set)@ == old(set)@.insert(digest),
{
    set.insert(digest);
}

/// The values of the key columns `columns` in `row`.
pub open spec fn key_of(row: Seq<i64>, columns: Seq<usize>) -> Seq<i64> {
    Seq::new(columns.len(), |c: int| row[columns[c] as int])
}

/// Every row of the batch has every key column.
pub open spec fn batch_wf(rows: Seq<Vec<i64>>, columns: Seq<usize>) -> bool {
    forall|r: int, c: int|
        0 <= r < rows.len() && 0 <= c < columns.len() ==> (#[trigger] columns[c]) < (
        #[trigger] rows[r])@.len()
}

/// Whether `range` is the range of key column `c` among the first `upto`
/// rows: it holds the value of each, and its ends are values of some.
pub open spec fn is_key_range(
    rows: Seq<Vec<i64>>,
    columns: Seq<usize>,
    c: int,
    upto: int,
    range: ColumnRange,
) -> bool {
    &&& forall|r: int| 0 <= r < upto ==> range.contains(#[trigger] key_of(rows[r]@, columns)[c])
    &&& exists|r: int| 0 <= r < upto && #[trigger] key_of(rows[r]@, columns)[c] == range.min
    &&& exists|r: int| 0 <= r < upto && #[trigger] key_of(rows[r]@, columns)[c] == range.max
}

/// Whether `ranges` are the ranges of the key columns among the rows.
pub open spec fn are_key_ranges(
    rows: Seq<Vec<i64>>,
    columns: Seq<usize>,
    ranges: Seq<ColumnRange>,
) -> bool {
    &&& ranges.len() == columns.len()
    &&& forall|c: int|
        0 <= c < columns.len() ==> is_key_range(rows, columns, c, rows.len() as int, #[trigger] ranges[c])
}

/// The key digests of the first `upto` rows.
pub open spec fn key_digests(rows: Seq<Vec<i64>>, columns: Seq<usize>, upto: int) -> Set<u128> {
    Set::new(
        |d: u128| exists|r: int| 0 <= r < upto && d == key_digest_of(#[trigger] key_of(rows[r]@, columns)),
    )
}

/// The bloom hashes of the key columns: for each column, the hash of its
/// value in each row.
pub open spec fn key_bloom_hashes(rows: Seq<Vec<i64>>, columns: Seq<usize>) -> Seq<Seq<u64>> {
    Seq::new(
        columns.len(),
        |c: int| Seq::new(rows.len(), |r: int| bloom_hash_of(key_of(rows[r]@, columns)[c])),
    )
}

/// Lists of hashes, each taken as a sequence.
pub open spec fn hash_lists_view(lists: Seq<Vec<u64>>) -> Seq<Seq<u64>> {
    Seq::new(lists.len(), |i: int| lists[i]@)
}

/// The ranges as pairs of their ends.
pub open spec fn range_pairs(ranges: Seq<ColumnRange>) -> Seq<(i64, i64)> {
    Seq::new(ranges.len(), |c: int| (ranges[c].min, ranges[c].max))
}

/// Whether a block is passed over: its statistics are there and prove, for
/// one key column at least, that none of its values lies among those of the
/// new rows. A block without statistics, without the range of a key column,
/// or with a range that is not well formed, is never passed over on that
/// account.
pub open spec fn skips_block(
    target: Option<Vec<ColumnRange>>,
    source: Seq<ColumnRange>,
    columns: Seq<usize>,
) -> bool {
    match target {
        Some(ranges) => exists|c: int|
            0 <= c < columns.len() && c < source.len() && column_rules_out(
                ranges@,
                source,
                #[trigger] columns[c],
                c,
            ),
        None => false,
    }
}

/// Whether the block's range of table column `column` is there, is well
/// formed, and holds no value of the range of key column `c`.
pub open spec fn column_rules_out(
    target: Seq<ColumnRange>,
    source: Seq<ColumnRange>,
    column: usize,
    c: int,
) -> bool {
    &&& column < target.len()
    &&& target[column as int].wf()
    &&& target[column as int].disjoint_from(source[c])
}

/// The blocks among the first `upto` that are not passed over, by their
/// places, in order.
pub open spec fn affected_blocks(
    targets: Seq<Option<Vec<ColumnRange>>>,
    source: Seq<ColumnRange>,
    columns: Seq<usize>,
    upto: int,
) -> Seq<usize>
    decreases upto,
{
    if upto <= 0 {
        Seq::empty()
    } else if skips_block(targets[upto - 1], source, columns) {
        affected_blocks(targets, source, columns, upto - 1)
    } else {
        affected_blocks(targets, source, columns, upto - 1).push((upto - 1) as usize)
    }
}

/// Whether `deletion` is what the new rows ask to delete.
pub open spec fn is_deletion_for(
    deletion: DeletionByColumn,
    rows: Seq<Vec<i64>>,
    columns: Seq<usize>,
) -> bool {
    &&& exists|ranges: Seq<ColumnRange>|
        are_key_ranges(rows, columns, ranges) && deletion.columns_min_max@ == #[trigger] range_pairs(
            ranges,
        )
    &&& deletion.key_hashes@ == key_digests(rows, columns, rows.len() as int)
    &&& hash_lists_view(deletion.bloom_hashes@) == key_bloom_hashes(rows, columns)
}

/// Whether every row of the batch has every key column.
pub fn is_valid_batch(rows: &Vec<Vec<i64>>, columns: &Vec<usize>) -> (r: bool)
    ensures
        r == batch_wf(rows@, columns@),
{
    let mut r: usize = 0;
    while r < rows.len()
        invariant
            r <= rows.len(),
            forall|i: int, c: int|
                0 <= i < r && 0 <= c < columns.len() ==> (#[trigger] columns@[c]) < (
                #[trigger] rows@[i])@.len(),
        decreases rows.len() - r,
    {
        let mut c: usize = 0;
        while c < columns.len()
            invariant
                r < rows.len(),
                c <= columns.len(),
                forall|k: int| 0 <= k < c ==> (#[trigger] columns@[k]) < rows@[r as int]@.len(),
            decreases columns.len() - c,
        {
            if columns[c] >= rows[r].len() {
                return false;
            }
            c += 1;
        }
        r += 1;
    }
    true
}

/// The values of the key columns in a row.
pub fn project_key(row: &Vec<i64>, columns: &Vec<usize>) -> (key: Vec<i64>)
    requires
        forall|c: int| 0 <= c < columns@.len() ==> (#[trigger] columns@[c]) < row@.len(),
    ensures
        key@ == key_of(row@, columns@),
{
    let mut key: Vec<i64> = Vec::new();
    let mut c: usize = 0;
    while c < columns.len()
        invariant
            c <= columns.len(),
            forall|k: int| 0 <= k < columns@.len() ==> (#[trigger] columns@[k]) < row@.len(),
            key@ == key_of(row@, columns@).take(c as int),
        decreases columns.len() - c,
    {
        key.push(row[columns[c]]);
        c += 1;
    }
    key
}

/// Computes the least and greatest value of each key column among the new
/// rows.
pub fn source_ranges(rows: &Vec<Vec<i64>>, columns: &Vec<usize>) -> (ranges: Vec<ColumnRange>)
    requires
        rows@.len() > 0,
        batch_wf(rows@, columns@),
    ensures
        are_key_ranges(rows@, columns@, ranges@),
{
    let mut ranges: Vec<ColumnRange> = Vec::new();
    let mut c: usize = 0;
    while c < columns.len()
        invariant
            c <= columns.len(),
            rows@.len() > 0,
            batch_wf(rows@, columns@),
            ranges@.len() == c,
            forall|k: int|
                0 <= k < c ==> is_key_range(
                    rows@,
                    columns@,
                    k,
                    rows@.len() as int,
                    #[trigger] ranges@[k],
                ),
        decreases columns.len() - c,
    {
        let column: usize = columns[c];
        let mut range = ColumnRange::point(rows[0][column]);
        assert(key_of(rows@[0]@, columns@)[c as int] == range.min);
        let mut r: usize = 1;
        while r < rows.len()
            invariant
                1 <= r <= rows.len(),
                c < columns.len(),
                column == columns@[c as int],
                batch_wf(rows@, columns@),
                is_key_range(rows@, columns@, c as int, r as int, range),
            decreases rows.len() - r,
        {
            let v: i64 = rows[r][column];
            range = range.rollup(&ColumnRange::point(v));
            proof {
                assert(key_of(rows@[r as int]@, columns@)[c as int] == v);
            }
            r += 1;
        }
        ranges.push(range);
        c += 1;
    }
    ranges
}

/// Decides whether a block is passed over for the new rows.
pub fn is_block_skipped(
    target: &Option<Vec<ColumnRange>>,
    source: &Vec<ColumnRange>,
    columns: &Vec<usize>,
) -> (r: bool)
    ensures
        r == skips_block(*target, source@, columns@),
{
    match target {
        None => false,
        Some(ranges) => {
            let mut c: usize = 0;
            while c < columns.len() && c < source.len()
                invariant
                    *target == Some(*ranges),
                    c <= columns.len(),
                    c <= source.len(),
                    forall|k: int|
                        0 <= k < c ==> !column_rules_out(ranges@, source@, #[trigger] columns@[k], k),
                decreases columns.len() - c,
            {
                let column: usize = columns[c];
                if column < ranges.len() && ranges[column].is_well_formed()
                    && ranges[column].is_disjoint_from(&source[c]) {
                    assert(0 <= c < columns@.len() && c < source@.len() && column_rules_out(
                        ranges@,
                        source@,
                        columns@[c as int],
                        c as int,
                    ));
                    return true;
                }
                c += 1;
            }
            false
        },
    }
}

/// Lists the blocks that are not passed over, by their places.
pub fn list_affected_blocks(
    targets: &Vec<Option<Vec<ColumnRange>>>,
    source: &Vec<ColumnRange>,
    columns: &Vec<usize>,
) -> (places: Vec<usize>)
    ensures
        places@ == affected_blocks(targets@, source@, columns@, targets@.len() as int),
{
    let mut places: Vec<usize> = Vec::new();
    let mut t: usize = 0;
    while t < targets.len()
        invariant
            t <= targets.len(),
            places@ == affected_blocks(targets@, source@, columns@, t as int),
        decreases targets.len() - t,
    {
        if !is_block_skipped(&targets[t], source, columns) {
            places.push(t);
        }
        t += 1;
    }
    places
}

/// Makes the deletion that the new rows ask for.
pub fn deletion_for(rows: &Vec<Vec<i64>>, columns: &Vec<usize>, ranges: &Vec<ColumnRange>) -> (deletion:
    DeletionByColumn)
    requires
        batch_wf(rows@, columns@),
        are_key_ranges(rows@, columns@, ranges@),
    ensures
        is_deletion_for(deletion, rows@, columns@),
        deletion.columns_min_max@ == range_pairs(ranges@),
{
    let mut columns_min_max: Vec<(i64, i64)> = Vec::new();
    let mut c: usize = 0;
    while c < ranges.len()
        invariant
            c <= ranges.len(),
            columns_min_max@ == range_pairs(ranges@).take(c as int),
        decreases ranges.len() - c,
    {
        columns_min_max.push((ranges[c].min, ranges[c].max));
        c += 1;
    }
    assert(range_pairs(ranges@).take(ranges.len() as int) =~= range_pairs(ranges@));

    let mut key_hashes = new_digest_set();
    let mut r: usize = 0;
    while r < rows.len()
        invariant
            r <= rows.len(),
            batch_wf(rows@, columns@),
            key_hashes@ == key_digests(rows@, columns@, r as int),
        decreases rows.len() - r,
    {
        let key = project_key(&rows[r], columns);
        let digest = key_digest(&key);
        digest_set_insert(&mut key_hashes, digest);
        proof {
            let after = key_digests(rows@, columns@, r + 1);
            let before = key_digests(rows@, columns@, r as int);
            assert forall|d: u128| after.contains(d) <==> before.insert(digest).contains(d) by {
                if d == digest {
                    assert(0 <= r < r + 1 && d == key_digest_of(
                        key_of(rows@[r as int]@, columns@),
                    ));
                }
            }
        }
        r += 1;
    }

    let mut bloom_hashes: Vec<Vec<u64>> = Vec::new();
    let mut c: usize = 0;
    while c < columns.len()
        invariant
            c <= columns.len(),
            batch_wf(rows@, columns@),
            hash_lists_view(bloom_hashes@) == key_bloom_hashes(rows@, columns@).take(c as int),
        decreases columns.len() - c,
    {
        let mut hashes: Vec<u64> = Vec::new();
        let mut r: usize = 0;
        while r < rows.len()
            invariant
                r <= rows.len(),
                c < columns.len(),
                batch_wf(rows@, columns@),
                hashes@ == key_bloom_hashes(rows@, columns@)[c as int].take(r as int),
            decreases rows.len() - r,
        {
            hashes.push(bloom_hash(rows[r][columns[c]]));
            r += 1;
        }
        assert(key_bloom_hashes(rows@, columns@)[c as int].take(rows.len() as int)
            =~= key_bloom_hashes(rows@, columns@)[c as int]);
        let ghost before = hash_lists_view(bloom_hashes@);
        bloom_hashes.push(hashes);
        proof {
            assert(hash_lists_view(bloom_hashes@) =~= before.push(hashes@));
        }
        c += 1;
    }
    assert(key_bloom_hashes(rows@, columns@).take(columns.len() as int) =~= key_bloom_hashes(
        rows@,
        columns@,
    ));
    DeletionByColumn { columns_min_max, key_hashes, bloom_hashes }
}

/// What `resolve` returns: nothing for no rows; else one deletion for each
/// block that is not passed over, each the deletion that the rows ask for.
pub open spec fn is_resolution(
    operation: ReplaceIntoOperation,
    targets: Seq<Option<Vec<ColumnRange>>>,
    rows: Seq<Vec<i64>>,
    columns: Seq<usize>,
) -> bool {
    match operation {
        ReplaceIntoOperation::Nothing => rows.len() == 0,
        ReplaceIntoOperation::Delete(deletions) => rows.len() > 0 && exists|
            ranges: Seq<ColumnRange>,
        |
            {
                &&& are_key_ranges(rows, columns, ranges)
                &&& deletions@.len() == (#[trigger] affected_blocks(
                    targets,
                    ranges,
                    columns,
                    targets.len() as int,
                )).len()
                &&& forall|i: int|
                    0 <= i < deletions@.len() ==> is_deletion_for(
                        #[trigger] deletions@[i],
                        rows,
                        columns,
                    ) && deletions@[i].columns_min_max@ == range_pairs(ranges)
            },
    }
}

/// Resolves the conflicts of a batch of new rows with the blocks of a
/// table.
///
/// `targets` holds the statistics of each block, or `None` where a block has
/// none; `rows` the new rows; `columns` the places of the key columns. A
/// block is passed over where its statistics prove that no value of some key
/// column lies among those of the new rows. For every other block there is
/// one deletion, with the ranges, key digests and bloom hashes of the new
/// rows. No rows, nothing to do.
pub fn resolve(
    targets: &Vec<Option<Vec<ColumnRange>>>,
    rows: &Vec<Vec<i64>>,
    columns: &Vec<usize>,
) -> (operation: ReplaceIntoOperation)
    requires
        batch_wf(rows@, columns@),
    ensures
        is_resolution(operation, targets@, rows@, columns@),
{
    if rows.len() == 0 {
        return ReplaceIntoOperation::Nothing;
    }
    let ranges = source_ranges(rows, columns);
    let mut deletions: Vec<DeletionByColumn> = Vec::new();
    let mut t: usize = 0;
    while t < targets.len()
        invariant
            t <= targets.len(),
            batch_wf(rows@, columns@),
            are_key_ranges(rows@, columns@, ranges@),
            deletions@.len() == affected_blocks(targets@, ranges@, columns@, t as int).len(),
            forall|i: int|
                0 <= i < deletions@.len() ==> is_deletion_for(
                    #[trigger] deletions@[i],
                    rows@,
                    columns@,
                ) && deletions@[i].columns_min_max@ == range_pairs(ranges@),
        decreases targets.len() - t,
    {
        if !is_block_skipped(&targets[t], &ranges, columns) {
            deletions.push(deletion_for(rows, columns, &ranges));
        }
        t += 1;
    }
    ReplaceIntoOperation::Delete(deletions)
}

/// Passing a block over is safe: a block that is passed over holds no row
/// whose key values all lie within the ranges of the new rows, as long as
/// the block's statistics admit its rows.
pub proof fn lemma_skipped_block_has_no_row_in_range(
    target: Vec<ColumnRange>,
    source: Seq<ColumnRange>,
    columns: Seq<usize>,
    row: Seq<i64>,
)
    requires
        skips_block(Some(target), source, columns),
        row_admitted(row, target@),
    ensures
        !(forall|c: int|
            0 <= c < columns.len() && c < source.len() ==> (#[trigger] columns[c]) < row.len()
                && source[c].contains(row[columns[c] as int])),
{
}

/// No block is passed over that holds a row with the key of a new row: such
/// a block is always among those that get a deletion.
pub proof fn lemma_conflicting_block_is_not_skipped(
    target: Vec<ColumnRange>,
    rows: Seq<Vec<i64>>,
    columns: Seq<usize>,
    ranges: Seq<ColumnRange>,
    r: int,
    row: Seq<i64>,
)
    requires
        are_key_ranges(rows, columns, ranges),
        0 <= r < rows.len(),
        row_admitted(row, target@),
        forall|c: int| 0 <= c < columns.len() ==> (#[trigger] columns[c]) < row.len(),
        key_of(row, columns) == key_of(rows[r]@, columns),
    ensures
        !skips_block(Some(target), ranges, columns),
{
    if skips_block(Some(target), ranges, columns) {
        let c = choose|c: int|
            0 <= c < columns.len() && c < ranges.len() && column_rules_out(
                target@,
                ranges,
                #[trigger] columns[c],
                c,
            );
        assert(ranges[c].contains(key_of(rows[r]@, columns)[c]));
    }
}


/// Resolves the conflicts of a batch of new rows, or tells that the batch
/// is not sound: `None` where a row lacks a key column.
pub fn try_resolve(
    targets: &Vec<Option<Vec<ColumnRange>>>,
    rows: &Vec<Vec<i64>>,
    columns: &Vec<usize>,
) -> (r: Option<ReplaceIntoOperation>)
    ensures
        match r {
            Some(operation) => batch_wf(rows@, columns@) && is_resolution(
                operation,
                targets@,
                rows@,
                columns@,
            ),
            None => !batch_wf(rows@, columns@),
        },
{
    if is_valid_batch(rows, columns) {
        Some(resolve(targets, rows, columns))
    } else {
        None
    }
}

/// `HashSet::contains` on a set keyed by ahash: whether the set holds the
/// digest.
#[verifier::external_body]
fn digest_set_contains(set: &HashSet<u128, ahash::RandomState>, digest: u128) -> (r: bool)
    ensures
        r == set@.contains(digest),
{
    set.contains(&digest)
}

/// Whether the new row `r` cannot be in a block with the bloom digests
/// `bloom`: for one key column at least the block has a digest that the
/// hash of the row's value is not in. `hashes` holds the hashes of the new
/// rows, by key column.
pub open spec fn row_ruled_out(
    bloom: Seq<Option<BloomDigest>>,
    columns: Seq<usize>,
    hashes: Seq<Seq<u64>>,
    r: int,
) -> bool {
    exists|c: int|
        0 <= c < columns.len() && c < hashes.len() && 0 <= r < hashes[c].len() && hash_ruled_out(
            bloom,
            #[trigger] columns[c],
            hashes[c][r],
        )
}

/// Whether the block has a digest for the column that the hash is not in.
pub open spec fn hash_ruled_out(bloom: Seq<Option<BloomDigest>>, column: usize, hash: u64) -> bool {
    column < bloom.len() && (bloom[column as int] matches Some(d) && !d.may_contain_spec(hash))
}

/// Whether the bloom digests of a block rule out each of the `rows` new
/// rows.
pub open spec fn block_ruled_out(
    bloom: Seq<Option<BloomDigest>>,
    columns: Seq<usize>,
    hashes: Seq<Seq<u64>>,
    rows: int,
) -> bool {
    forall|r: int| 0 <= r < rows ==> #[trigger] row_ruled_out(bloom, columns, hashes, r)
}

/// Decides, before any row of a block is read, whether the block can hold
/// a row of the keys of the new rows: it cannot where its bloom digests
/// rule out every new row.
pub fn may_match_block(
    bloom: &Vec<Option<BloomDigest>>,
    columns: &Vec<usize>,
    deletion: &DeletionByColumn,
    rows: usize,
) -> (r: bool)
    ensures
        r == !block_ruled_out(
            bloom@,
            columns@,
            hash_lists_view(deletion.bloom_hashes@),
            rows as int,
        ),
{
    let ghost hashes = hash_lists_view(deletion.bloom_hashes@);
    let mut r: usize = 0;
    while r < rows
        invariant
            r <= rows,
            hashes == hash_lists_view(deletion.bloom_hashes@),
            forall|k: int| 0 <= k < r ==> #[trigger] row_ruled_out(bloom@, columns@, hashes, k),
        decreases rows - r,
    {
        let mut ruled_out = false;
        let mut c: usize = 0;
        while c < columns.len() && c < deletion.bloom_hashes.len() && !ruled_out
            invariant
                c <= columns.len(),
                c <= deletion.bloom_hashes.len(),
                hashes == hash_lists_view(deletion.bloom_hashes@),
                ruled_out ==> row_ruled_out(bloom@, columns@, hashes, r as int),
                !ruled_out ==> forall|k: int|
                    0 <= k < c ==> !(r < hashes[k].len() && hash_ruled_out(
                        bloom@,
                        #[trigger] columns@[k],
                        hashes[k][r as int],
                    )),
            decreases columns.len() - c + (if ruled_out {
                0int
            } else {
                1int
            }),
        {
            let column: usize = columns[c];
            let row_hashes = &deletion.bloom_hashes[c];
            let mut found = false;
            if r < row_hashes.len() && column < bloom.len() {
                match &bloom[column] {
                    Some(digest) => {
                        if !digest.may_contain(row_hashes[r]) {
                            found = true;
                        }
                    },
                    None => {},
                }
            }
            if found {
                ruled_out = true;
            } else {
                c += 1;
            }
        }
        if !ruled_out {
            assert(!row_ruled_out(bloom@, columns@, hashes, r as int));
            return true;
        }
        r += 1;
    }
    false
}

/// Whether the key of `row` is the key of one of the new rows.
pub open spec fn has_new_key(row: Seq<i64>, rows: Seq<Vec<i64>>, columns: Seq<usize>) -> bool {
    exists|r: int| 0 <= r < rows.len() && #[trigger] key_of(rows[r]@, columns) == key_of(row, columns)
}

/// The places among the first `upto` rows of a block of the rows to
/// delete: those whose key is the key of a new row.
pub open spec fn rows_to_delete(
    block: Seq<Vec<i64>>,
    rows: Seq<Vec<i64>>,
    columns: Seq<usize>,
    upto: int,
) -> Seq<usize>
    decreases upto,
{
    if upto <= 0 {
        Seq::empty()
    } else if has_new_key(block[upto - 1]@, rows, columns) {
        rows_to_delete(block, rows, columns, upto - 1).push((upto - 1) as usize)
    } else {
        rows_to_delete(block, rows, columns, upto - 1)
    }
}

/// Whether two keys are the same.
fn same_key(a: &Vec<i64>, b: &Vec<i64>) -> (r: bool)
    ensures
        r == (a@ == b@),
{
    if a.len() != b.len() {
        return false;
    }
    let mut i: usize = 0;
    while i < a.len()
        invariant
            i <= a.len(),
            a@.len() == b@.len(),
            forall|j: int| 0 <= j < i ==> a@[j] == b@[j],
        decreases a.len() - i,
    {
        if a[i] != b[i] {
            return false;
        }
        i += 1;
    }
    assert(a@ =~= b@);
    true
}

/// Finds the rows of a block to delete for a batch of new rows.
///
/// A row whose key digest is not among those of the new rows is passed
/// over at once. A row whose digest is among them is deleted only where
/// its key is found to be the key of a new row: a digest that two keys
/// share deletes nothing that should stay.
pub fn apply_deletion(
    block: &Vec<Vec<i64>>,
    rows: &Vec<Vec<i64>>,
    columns: &Vec<usize>,
    deletion: &DeletionByColumn,
) -> (r: Vec<usize>)
    requires
        batch_wf(block@, columns@),
        batch_wf(rows@, columns@),
        deletion.key_hashes@ == key_digests(rows@, columns@, rows@.len() as int),
    ensures
        r@ == rows_to_delete(block@, rows@, columns@, block@.len() as int),
{
    let mut places: Vec<usize> = Vec::new();
    let mut i: usize = 0;
    while i < block.len()
        invariant
            i <= block.len(),
            batch_wf(block@, columns@),
            batch_wf(rows@, columns@),
            deletion.key_hashes@ == key_digests(rows@, columns@, rows@.len() as int),
            places@ == rows_to_delete(block@, rows@, columns@, i as int),
        decreases block.len() - i,
    {
        let key = project_key(&block[i], columns);
        let mut found = false;
        if digest_set_contains(&deletion.key_hashes, key_digest(&key)) {
            let mut r: usize = 0;
            while r < rows.len() && !found
                invariant
                    r <= rows.len(),
                    i < block.len(),
                    batch_wf(rows@, columns@),
                    key@ == key_of(block@[i as int]@, columns@),
                    found ==> has_new_key(block@[i as int]@, rows@, columns@),
                    !found ==> forall|k: int|
                        0 <= k < r ==> #[trigger] key_of(rows@[k]@, columns@) != key@,
                decreases rows.len() - r + (if found {
                    0int
                } else {
                    1int
                }),
            {
                let new_key = project_key(&rows[r], columns);
                if same_key(&new_key, &key) {
                    assert(key_of(rows@[r as int]@, columns@) == key_of(
                        block@[i as int]@,
                        columns@,
                    ));
                    found = true;
                } else {
                    r += 1;
                }
            }
        }
        if found {
            places.push(i);
        }
        i += 1;
    }
    places
}

/// The bloom digests of a block rule out no row that the block holds: a
/// block that holds a row with the key of a new row is never ruled out, as
/// long as its digests hold the values of its rows.
pub proof fn lemma_block_with_new_key_is_not_ruled_out(
    bloom: Seq<Option<BloomDigest>>,
    rows: Seq<Vec<i64>>,
    columns: Seq<usize>,
    r: int,
    row: Seq<i64>,
)
    requires
        0 <= r < rows.len(),
        batch_wf(rows, columns),
        forall|c: int| 0 <= c < columns.len() ==> (#[trigger] columns[c]) < row.len(),
        key_of(row, columns) == key_of(rows[r]@, columns),
        crate::segment::row_in_digests(row, bloom),
    ensures
        !block_ruled_out(bloom, columns, key_bloom_hashes(rows, columns), rows.len() as int),
{
    let hashes = key_bloom_hashes(rows, columns);
    if row_ruled_out(bloom, columns, hashes, r) {
        let c = choose|c: int|
            0 <= c < columns.len() && c < hashes.len() && 0 <= r < hashes[c].len()
                && hash_ruled_out(bloom, #[trigger] columns[c], hashes[c][r]);
        let column = columns[c];
        assert(hashes[c][r] == bloom_hash_of(key_of(rows[r]@, columns)[c]));
        assert(key_of(row, columns)[c] == row[column as int]);
        assert(bloom[column as int] is Some);
    }
}

/// What is attached to a block of data.
#[derive(Debug, PartialEq)]
pub enum BlockMeta {
    /// What goes with a batch of new rows.
    ReplaceInto(ReplaceIntoOperation),
    /// Anything else.
    Other,
}

/// The message for a block without anything attached.
pub open spec fn no_block_meta_message() -> Seq<char> {
    "convert ReplaceIntoOperation from data block failed, no block meta found"@
}

/// The message for a block with something else attached.
pub open spec fn type_mismatch_message() -> Seq<char> {
    "downcast block meta to MutationIntoOperation failed, type mismatch"@
}

impl ReplaceIntoOperation {
    /// Takes what goes with a batch of new rows from what is attached to a
    /// block. A block with nothing attached, or with something else, is
    /// refused.
    pub fn try_from_block_meta(meta: Option<BlockMeta>) -> (r: Result<
        ReplaceIntoOperation,
        crate::error::ErrorCode,
    >)
        ensures
            match meta {
                Some(BlockMeta::ReplaceInto(operation)) => r == Ok::<
                    ReplaceIntoOperation,
                    crate::error::ErrorCode,
                >(operation),
                Some(BlockMeta::Other) => r matches Err(crate::error::ErrorCode::Internal(m))
                    && m@ == type_mismatch_message(),
                None => r matches Err(crate::error::ErrorCode::Internal(m)) && m@
                    == no_block_meta_message(),
            },
    {
        match meta {
            None => Err(
                crate::error::ErrorCode::Internal(
                    String::from_str(
                        "convert ReplaceIntoOperation from data block failed, no block meta found",
                    ),
                ),
            ),
            Some(BlockMeta::ReplaceInto(operation)) => Ok(operation),
            Some(BlockMeta::Other) => Err(
                crate::error::ErrorCode::Internal(
                    String::from_str(
                        "downcast block meta to MutationIntoOperation failed, type mismatch",
                    ),
                ),
            ),
        }
    }
}

} // verus!
