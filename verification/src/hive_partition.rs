//! The partitions of a hive table, as the location of a file names them.

use vstd::prelude::*;
use vstd::string::*;
use crate::error::ErrorCode;
use crate::table_options::TableOptions;
use crate::text::{find_char, index_of, lemma_index_of};

verus! {

/// Whether a part of a location names a partition: it holds one equals
/// sign, and one only.
pub open spec fn is_partition_part(part: Seq<char>) -> bool {
    let k = index_of(part, '=');
    k < part.len() && index_of(part.subrange(k + 1, part.len() as int), '=') == part.len() - k - 1
}

/// The partitions `m` with the one that `part` names, if it names one: what
/// stands before the equals sign is the column, what stands behind it the
/// value.
pub open spec fn with_part(m: Map<Seq<char>, Seq<char>>, part: Seq<char>) -> Map<
    Seq<char>,
    Seq<char>,
> {
    if is_partition_part(part) {
        let k = index_of(part, '=');
        m.insert(part.subrange(0, k), part.subrange(k + 1, part.len() as int))
    } else {
        m
    }
}

/// The partitions `m` with those that the parts of `location` name, a
/// later part of a column replacing an earlier one. The parts are what
/// stands between the slashes.
pub open spec fn with_parts(m: Map<Seq<char>, Seq<char>>, location: Seq<char>) -> Map<
    Seq<char>,
    Seq<char>,
>
    decreases location.len(),
{
    let k = index_of(location, '/');
    if 0 <= k < location.len() {
        with_parts(
            with_part(m, location.subrange(0, k)),
            location.subrange(k + 1, location.len() as int),
        )
    } else {
        with_part(m, location)
    }
}

/// The partitions that a location names.
pub open spec fn partitions_of(location: Seq<char>) -> Map<Seq<char>, Seq<char>> {
    with_parts(Map::empty(), location)
}

/// Puts the partition that `part` names, if it names one, among the
/// partitions.
fn add_part(partitions: &mut TableOptions, part: &str)
    ensures
        final(partitions)@ == with_part(old(partitions)@, part@),
{
    let n = part.unicode_len();
    let k = find_char(part, '=');
    proof {
        lemma_index_of(part@, '=');
    }
    if k < n {
        let value = part.substring_char(k + 1, n);
        let more = find_char(value, '=');
        proof {
            lemma_index_of(value@, '=');
        }
        if more == value.unicode_len() {
            partitions.insert(part.substring_char(0, k), value);
        }
    }
}

/// Reads the partitions that a location names: each part between slashes
/// that holds one equals sign names a column and its value.
pub fn parse_hive_partitions(location: &str) -> (partitions: TableOptions)
    ensures
        partitions@ == partitions_of(location@),
{
    let mut partitions = TableOptions::new();
    let n = location.unicode_len();
    let mut from: usize = 0;
    assert(location@.subrange(0, n as int) =~= location@);
    loop
        invariant
            from <= n,
            n == location@.len(),
            with_parts(partitions@, location@.subrange(from as int, n as int)) == partitions_of(
                location@,
            ),
        decreases n - from,
    {
        let rest = location.substring_char(from, n);
        let k = find_char(rest, '/');
        proof {
            lemma_index_of(rest@, '/');
        }
        if k < n - from {
            add_part(&mut partitions, rest.substring_char(0, k));
            proof {
                assert(rest@.subrange(k + 1, rest@.len() as int) =~= location@.subrange(
                    from + k + 1,
                    n as int,
                ));
            }
            from = from + k + 1;
        } else {
            add_part(&mut partitions, rest);
            return partitions;
        }
    }
}

/// Fills in the columns by which a hive table is partitioned.
#[derive(Debug, Clone)]
pub struct HivePartitionFiller {
    /// The names of the columns.
    pub partition_fields: Vec<String>,
}

/// Texts, each taken by its characters.
pub open spec fn names_view(names: Seq<String>) -> Seq<Seq<char>> {
    Seq::new(names.len(), |i: int| names[i]@)
}

/// Whether the location names a partition for each of the columns.
pub open spec fn names_all(fields: Seq<String>, partitions: Map<Seq<char>, Seq<char>>) -> bool {
    forall|i: int| 0 <= i < fields.len() ==> partitions.contains_key((#[trigger] fields[i])@)
}

impl HivePartitionFiller {
    /// A filler for the columns `partition_fields`.
    pub fn create(partition_fields: Vec<String>) -> (r: Self)
        ensures
            r.partition_fields == partition_fields,
    {
        HivePartitionFiller { partition_fields }
    }

    /// Takes the values of the columns from the location of a file, as
    /// they stand there, in the order of the columns. A location that does
    /// not name a column is refused.
    pub fn extract_scalars(&self, locations: &str) -> (r: Result<Vec<String>, ErrorCode>)
        ensures
            match r {
                Ok(values) => names_all(self.partition_fields@, partitions_of(locations@))
                    && values@.len() == self.partition_fields@.len() && forall|i: int|
                    0 <= i < values@.len() ==> (#[trigger] values@[i])@ == partitions_of(
                        locations@,
                    )[self.partition_fields@[i]@],
                Err(e) => !names_all(self.partition_fields@, partitions_of(locations@))
                    && e is TableInfoError,
            },
    {
        let partition_map = parse_hive_partitions(locations);
        let mut partition_values: Vec<String> = Vec::new();
        let mut i: usize = 0;
        while i < self.partition_fields.len()
            invariant
                i <= self.partition_fields.len(),
                partition_map@ == partitions_of(locations@),
                partition_values@.len() == i,
                forall|j: int|
                    0 <= j < i ==> partition_map@.contains_key(
                        (#[trigger] self.partition_fields@[j])@,
                    ),
                forall|j: int|
                    0 <= j < i ==> (#[trigger] partition_values@[j])@
                        == partition_map@[self.partition_fields@[j]@],
            decreases self.partition_fields.len() - i,
        {
            let field = &self.partition_fields[i];
            match partition_map.get(field.as_str()) {
                Some(v) => {
                    partition_values.push(v.clone());
                },
                None => {
                    let mut m = String::from_str("couldn't find hive partition info :");
                    m.append(field.as_str());
                    return Err(ErrorCode::TableInfoError(m));
                },
            };
            i += 1;
        }
        Ok(partition_values)
    }
}

} // verus!
