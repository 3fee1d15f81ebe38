//! Table snapshots and the generator that makes the next one of a chain.

use std::sync::Arc;
use vstd::prelude::*;
use crate::error::ErrorCode;
use crate::statistics::{empty_statistics, rollup, Statistics, StatisticsView};
use crate::timestamp::{snapshot_time, snapshot_timestamp, Timestamp};

verus! {

/// The format version that new snapshots are written in.
pub const SNAPSHOT_FORMAT_VERSION: u64 = 4;

/// The kinds of column that a table can have.
#[derive(Clone, Copy, Debug, PartialEq, Eq, Structural)]
pub enum TypeKind {
    Null,
    Boolean,
    Number,
    Decimal,
    Timestamp,
    Date,
    String,
    Binary,
    Variant,
}

/// The type of a column: its kind, and whether it can be without a value.
#[derive(Clone, Copy, Debug, PartialEq, Eq, Structural)]
pub struct DataType {
    pub kind: TypeKind,
    pub nullable: bool,
}

/// A column of a table.
#[derive(Clone, Debug, PartialEq, Eq)]
pub struct TableField {
    pub name: String,
    pub data_type: DataType,
}

/// The columns of a table at one version of it.
#[derive(Clone, Debug, PartialEq, Eq)]
pub struct TableSchema {
    pub fields: Vec<TableField>,
}

/// What a snapshot says of the table as a whole.
#[derive(Clone, Debug, PartialEq, Eq)]
pub struct SnapshotSummary {
    /// The statistics of all segments together.
    pub statistics: Statistics,
    /// Whether the snapshots before this one may be collected at once,
    /// instead of being kept for time travel.
    pub purge_ancestors: bool,
}

/// One consistent view of a table. A snapshot is never changed once made.
#[derive(Clone, Debug, PartialEq, Eq)]
pub struct TableSnapshot {
    /// The version of the format that the snapshot is written in.
    pub format_version: u64,
    /// The snapshot's own identifier.
    pub snapshot_id: u128,
    /// When the snapshot was made; later than its predecessor's.
    pub timestamp: Option<Timestamp>,
    /// The sequence number of the table before this snapshot, if known.
    pub prev_table_seq: Option<u64>,
    /// The identifier and format version of the snapshot before this one.
    pub prev_snapshot_id: Option<(u128, u64)>,
    /// The table's columns at this snapshot.
    pub schema: TableSchema,
    /// The table as a whole.
    pub summary: SnapshotSummary,
    /// The segments of the table: location and format version of each.
    pub segments: Vec<(String, u64)>,
    /// The cluster key in force, if any.
    pub cluster_key_id: Option<u32>,
    /// Where further statistics of the table are kept, if anywhere.
    pub table_statistics_location: Option<String>,
}

/// The locations in `segments`, each text taken by its characters.
pub open spec fn locations_view(segments: Seq<(String, u64)>) -> Seq<(Seq<char>, u64)> {
    Seq::new(segments.len(), |i: int| (segments[i].0@, segments[i].1))
}

/// What an append or a compaction brings: segments and their statistics.
#[derive(Clone, Debug, PartialEq, Eq)]
pub struct SegmentsChange {
    pub segments: Vec<(String, u64)>,
    pub statistics: Statistics,
}

/// The operation that a new snapshot reflects.
#[derive(Clone, Debug, PartialEq, Eq)]
pub enum GenerationMode {
    /// New segments are put in front of those of the previous snapshot.
    Append(SegmentsChange),
    /// The table is emptied; the previous snapshots stay for time travel.
    TruncateNormal,
    /// As `TruncateNormal`, for a deletion that leaves no row.
    TruncateDelete,
    /// The table is emptied and the previous snapshots may be collected.
    TruncatePurge,
    /// The segments are replaced by the given ones.
    Compact(SegmentsChange),
}

/// How a table is truncated.
#[derive(Clone, Copy, Debug, PartialEq, Eq, Structural)]
pub enum TruncateMode {
    /// Truncate and keep the historical data.
    Normal,
    /// Delete the data, used for delete operation.
    Delete,
    /// Truncate and purge the historical data.
    Purge,
}

impl TableSnapshot {
    /// The timestamp, if there is one, is well formed and has a later one.
    pub open spec fn wf(&self) -> bool {
        self.timestamp matches Some(t) ==> t.wf() && t.can_advance()
    }

    /// Whether a snapshot can follow this one.
    pub fn is_well_formed(&self) -> (r: bool)
        ensures
            r == self.wf(),
    {
        match &self.timestamp {
            Some(t) => t.is_well_formed() && t.has_later(),
            None => true,
        }
    }
}

impl GenerationMode {
    /// The segments of the snapshot that follows `previous`.
    pub open spec fn next_segments(&self, previous: Option<TableSnapshot>) -> Seq<(Seq<char>, u64)> {
        match self {
            GenerationMode::Append(change) => locations_view(change.segments@) + (match previous {
                Some(p) => locations_view(p.segments@),
                None => Seq::empty(),
            }),
            GenerationMode::Compact(change) => locations_view(change.segments@),
            _ => Seq::empty(),
        }
    }

    /// The statistics of the snapshot that follows `previous`.
    pub open spec fn next_statistics(&self, previous: Option<TableSnapshot>) -> StatisticsView {
        match self {
            GenerationMode::Append(change) => match previous {
                Some(p) => rollup(p.summary.statistics@, change.statistics@),
                None => change.statistics@,
            },
            GenerationMode::Compact(change) => change.statistics@,
            _ => empty_statistics(),
        }
    }

    /// Whether the snapshot tells that its ancestors may be collected.
    pub open spec fn purges(&self) -> bool {
        self is TruncatePurge
    }

    /// Whether the snapshot keeps the cluster key that it is given.
    pub open spec fn keeps_cluster_key(&self) -> bool {
        self is Append || self is Compact
    }
}

/// `snapshot` is the snapshot that `mode` makes at `now`, with the
/// identifier `id`, after `previous`.
pub open spec fn is_next_snapshot(
    snapshot: TableSnapshot,
    mode: GenerationMode,
    id: u128,
    now: Timestamp,
    schema: TableSchema,
    cluster_key_id: Option<u32>,
    previous: Option<TableSnapshot>,
    prev_table_seq: Option<u64>,
) -> bool {
    &&& snapshot.format_version == SNAPSHOT_FORMAT_VERSION
    &&& snapshot.snapshot_id == id
    &&& snapshot.timestamp == Some(
        snapshot_time(
            now,
            match previous {
                Some(p) => p.timestamp,
                None => None,
            },
        ),
    )
    &&& snapshot.prev_table_seq == prev_table_seq
    &&& snapshot.prev_snapshot_id == (match previous {
        Some(p) => Some((p.snapshot_id, p.format_version)),
        None => None,
    })
    &&& snapshot.schema == schema
    &&& snapshot.summary.statistics@ == mode.next_statistics(previous)
    &&& snapshot.summary.purge_ancestors == mode.purges()
    &&& locations_view(snapshot.segments@) == mode.next_segments(previous)
    &&& snapshot.cluster_key_id == (if mode.keeps_cluster_key() {
        cluster_key_id
    } else {
        None
    })
    &&& snapshot.table_statistics_location is None
}

/// The snapshot behind a shared pointer, if there is one.
pub open spec fn unshared(previous: Option<Arc<TableSnapshot>>) -> Option<TableSnapshot> {
    match previous {
        Some(p) => Some(*p),
        None => None,
    }
}

/// `snapshot` has a well-formed timestamp, later than that of `previous`.
pub open spec fn is_later_than(snapshot: TableSnapshot, previous: Option<TableSnapshot>) -> bool {
    match snapshot.timestamp {
        Some(t) => t.wf() && (match previous {
            Some(p) => match p.timestamp {
                Some(pt) => t.as_nanos() > pt.as_nanos(),
                None => true,
            },
            None => true,
        }),
        None => false,
    }
}

/// A copy of a list of segment locations.
fn copy_locations(segments: &Vec<(String, u64)>, into: &mut Vec<(String, u64)>)
    ensures
        locations_view(final(into)@) == locations_view(old(into)@) + locations_view(segments@),
{
    let ghost start = locations_view(into@);
    let mut i: usize = 0;
    while i < segments.len()
        invariant
            i <= segments.len(),
            locations_view(into@) == start + locations_view(segments@).take(i as int),
        decreases segments.len() - i,
    {
        let ghost before = locations_view(into@);
        let location = segments[i].0.clone();
        into.push((location, segments[i].1));
        proof {
            assert(locations_view(into@) =~= before.push((segments@[i as int].0@, segments@[i as int].1)));
        }
        i += 1;
    }
}

/// A copy of some statistics.
fn copy_statistics(statistics: &Statistics) -> (r: Statistics)
    ensures
        r@ == statistics@,
{
    Statistics {
        row_count: statistics.row_count,
        block_count: statistics.block_count,
        byte_size: statistics.byte_size,
        col_stats: crate::statistics::copy_ranges(&statistics.col_stats),
    }
}

/// Makes the snapshot that follows `previous` and reflects `mode`, with the
/// identifier `id`, at the time `now`.
///
/// The new snapshot points back at `previous` and is later than it: a clock
/// that has not moved past the previous snapshot is overruled. The table
/// sequence is carried through as it is. Without a previous snapshot the
/// new one is the first of its table. Nothing here fails.
pub fn generate_snapshot(
    mode: &GenerationMode,
    id: u128,
    now: Timestamp,
    schema: TableSchema,
    cluster_key_id: Option<u32>,
    previous: &Option<Arc<TableSnapshot>>,
    prev_table_seq: Option<u64>,
    table_name: &str,
) -> (r: Result<TableSnapshot, ErrorCode>)
    requires
        now.wf(),
        previous matches Some(p) ==> p.wf(),
    ensures
        match r {
            Ok(snapshot) => is_next_snapshot(
                snapshot,
                *mode,
                id,
                now,
                schema,
                cluster_key_id,
                unshared(*previous),
                prev_table_seq,
            ) && is_later_than(snapshot, unshared(*previous)),
            Err(_) => false,
        },
{
    let (prev_timestamp, prev_snapshot_id) = match previous {
        Some(prev_snapshot) => (
            prev_snapshot.timestamp,
            Some((prev_snapshot.snapshot_id, prev_snapshot.format_version)),
        ),
        None => (None, None),
    };
    let timestamp = snapshot_timestamp(now, &prev_timestamp);
    let mut segments: Vec<(String, u64)> = Vec::new();
    let statistics = match mode {
        GenerationMode::Append(change) => {
            copy_locations(&change.segments, &mut segments);
            match previous {
                Some(prev_snapshot) => {
                    copy_locations(&prev_snapshot.segments, &mut segments);
                    prev_snapshot.summary.statistics.rollup(&change.statistics)
                },
                None => copy_statistics(&change.statistics),
            }
        },
        GenerationMode::Compact(change) => {
            copy_locations(&change.segments, &mut segments);
            copy_statistics(&change.statistics)
        },
        _ => Statistics::empty(),
    };
    let purge_ancestors = match mode {
        GenerationMode::TruncatePurge => true,
        _ => false,
    };
    let cluster_key_id = match mode {
        GenerationMode::Append(_) => cluster_key_id,
        GenerationMode::Compact(_) => cluster_key_id,
        _ => None,
    };
    let snapshot = TableSnapshot {
        format_version: SNAPSHOT_FORMAT_VERSION,
        snapshot_id: id,
        timestamp: Some(timestamp),
        prev_table_seq,
        prev_snapshot_id,
        schema,
        summary: SnapshotSummary { statistics, purge_ancestors },
        segments,
        cluster_key_id,
        table_statistics_location: None,
    };
    proof {
        assert(locations_view(snapshot.segments@) =~= mode.next_segments(unshared(*previous)));
    }
    Ok(snapshot)
}

/// `uuid::Uuid::new_v4`, as a number: a random identifier. Nothing is known
/// of the number.
#[verifier::external_body]
pub(crate) fn random_snapshot_id() -> (id: u128) {
    uuid::Uuid::new_v4().as_u128()
}

/// `chrono::Utc::now`, as seconds and nanoseconds since the Unix epoch. The
/// clock decides the value; the nanoseconds are less than a second, as they
/// come from the system clock's own sub-second part.
#[verifier::external_body]
fn clock_now() -> (now: Timestamp)
    ensures
        now.wf(),
{
    let t = chrono::Utc::now();
    Timestamp { secs: t.timestamp(), nanos: t.timestamp_subsec_nanos() }
}

/// Makes the snapshots of truncated tables.
#[derive(Clone, Copy, Debug, PartialEq, Eq, Structural)]
pub struct TruncateGenerator {
    mode: TruncateMode,
}

impl TruncateGenerator {
    /// A generator that truncates in the way `mode` says.
    pub fn new(mode: TruncateMode) -> (r: Self)
        ensures
            r.mode_view() == mode,
    {
        TruncateGenerator { mode }
    }

    /// The way in which the generator truncates.
    pub closed spec fn mode_view(&self) -> TruncateMode {
        self.mode
    }

    /// The way in which the generator truncates.
    pub fn mode(&self) -> (r: &TruncateMode)
        ensures
            *r == self.mode_view(),
    {
        &self.mode
    }

    /// The operation that the generator's snapshots reflect.
    pub open spec fn generation_mode_view(&self) -> GenerationMode {
        match self.mode_view() {
            TruncateMode::Normal => GenerationMode::TruncateNormal,
            TruncateMode::Delete => GenerationMode::TruncateDelete,
            TruncateMode::Purge => GenerationMode::TruncatePurge,
        }
    }

    /// The operation that the generator's snapshots reflect.
    pub fn generation_mode(&self) -> (r: GenerationMode)
        ensures
            r == self.generation_mode_view(),
    {
        match self.mode {
            TruncateMode::Normal => GenerationMode::TruncateNormal,
            TruncateMode::Delete => GenerationMode::TruncateDelete,
            TruncateMode::Purge => GenerationMode::TruncatePurge,
        }
    }

    /// Makes the snapshot of the truncated table with the identifier `id`
    /// at the time `now`: no segments, empty statistics, and a pointer back
    /// at `previous`. Only purging marks the ancestors for collection.
    pub fn generate_at(
        &self,
        id: u128,
        now: Timestamp,
        schema: TableSchema,
        cluster_key_id: Option<u32>,
        previous: &Option<Arc<TableSnapshot>>,
        prev_table_seq: Option<u64>,
        table_name: &str,
    ) -> (r: Result<TableSnapshot, ErrorCode>)
        requires
            now.wf(),
            previous matches Some(p) ==> p.wf(),
        ensures
            match r {
                Ok(snapshot) => is_next_snapshot(
                    snapshot,
                    self.generation_mode_view(),
                    id,
                    now,
                    schema,
                    cluster_key_id,
                    unshared(*previous),
                    prev_table_seq,
                ) && snapshot.segments@.len() == 0 && snapshot.summary.purge_ancestors == (
                self.mode_view() == TruncateMode::Purge) && is_later_than(
                    snapshot,
                    unshared(*previous),
                ),
                Err(_) => false,
            },
    {
        let mode = self.generation_mode();
        let r = generate_snapshot(
            &mode,
            id,
            now,
            schema,
            cluster_key_id,
            previous,
            prev_table_seq,
            table_name,
        );
        proof {
            if r is Ok {
                let segments = r->Ok_0.segments@;
                assert(locations_view(segments).len() == segments.len());
            }
        }
        r
    }

    /// Makes the snapshot of the truncated table, with a fresh random
    /// identifier, at the time that the clock shows. Whatever these two are,
    /// the snapshot is the one that `generate_at` makes of them.
    pub fn do_generate_new_snapshot(
        &self,
        schema: TableSchema,
        cluster_key_id: Option<u32>,
        previous: &Option<Arc<TableSnapshot>>,
        prev_table_seq: Option<u64>,
        table_name: &str,
    ) -> (r: Result<TableSnapshot, ErrorCode>)
        requires
            previous matches Some(p) ==> p.wf(),
        ensures
            match r {
                Ok(snapshot) => (exists|id: u128, now: Timestamp|
                    now.wf() && #[trigger] is_next_snapshot(
                        snapshot,
                        self.generation_mode_view(),
                        id,
                        now,
                        schema,
                        cluster_key_id,
                        unshared(*previous),
                        prev_table_seq,
                    )) && snapshot.segments@.len() == 0 && snapshot.summary.purge_ancestors == (
                self.mode_view() == TruncateMode::Purge) && is_later_than(
                    snapshot,
                    unshared(*previous),
                ),
                Err(_) => false,
            },
    {
        let id = random_snapshot_id();
        let now = clock_now();
        self.generate_at(id, now, schema, cluster_key_id, previous, prev_table_seq, table_name)
    }
}

} // verus!
