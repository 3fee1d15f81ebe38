//! Where a table's objects live: the storage prefix of a table and the keys
//! of the objects under it.

use vstd::prelude::*;
use vstd::string::*;
use crate::error::ErrorCode;
use crate::table_options::TableOptions;
use crate::text::{decimal, find_char, index_of, lemma_index_of, u64_to_decimal};

verus! {

/// The option that, when set, is the storage prefix as it stands.
pub const OPT_KEY_STORAGE_PREFIX: &'static str = "storage_prefix";

/// The option that holds the id of the table's database.
pub const OPT_KEY_DATABASE_ID: &'static str = "database_id";

/// The option that marks a temporary table and holds its temporary id.
pub const OPT_KEY_TEMP_PREFIX: &'static str = "temp_prefix";

/// The name space under which the objects of temporary tables are kept.
pub const TEMP_TABLE_STORAGE_PREFIX: &'static str = "_tmp_tbl";

/// What the name of an object written for later collection starts with.
pub const VACUUM2_OBJECT_KEY_PREFIX: &'static str = "g";

/// The prefix of a table's objects: the database id, a slash, the table id.
pub open spec fn storage_prefix_of(database_id: Seq<char>, table_id: nat) -> Seq<char> {
    database_id + seq!['/'] + decimal(table_id)
}

/// Composes the prefix under which the objects of table `table_id` of
/// database `database_id` are kept.
pub fn table_storage_prefix(database_id: &str, table_id: u64) -> (prefix: String)
    ensures
        prefix@ == storage_prefix_of(database_id@, table_id as nat),
{
    proof {
        reveal_strlit("/");
    }
    let mut prefix = String::from_str(database_id);
    prefix.append("/");
    let id = u64_to_decimal(table_id);
    prefix.append(id.as_str());
    prefix
}

/// The storage prefix that a table's options and id give, or `None` where
/// the options name neither a prefix nor a database.
pub open spec fn storage_prefix_spec(options: Map<Seq<char>, Seq<char>>, table_id: nat) -> Option<
    Seq<char>,
> {
    if options.contains_key(OPT_KEY_STORAGE_PREFIX@) {
        Some(options[OPT_KEY_STORAGE_PREFIX@])
    } else if !options.contains_key(OPT_KEY_DATABASE_ID@) {
        None
    } else if options.contains_key(OPT_KEY_TEMP_PREFIX@) {
        Some(
            TEMP_TABLE_STORAGE_PREFIX@ + seq!['/'] + options[OPT_KEY_TEMP_PREFIX@] + seq!['/']
                + storage_prefix_of(options[OPT_KEY_DATABASE_ID@], table_id),
        )
    } else {
        Some(storage_prefix_of(options[OPT_KEY_DATABASE_ID@], table_id))
    }
}

/// The message of the error for a table without a database id.
pub open spec fn missing_database_id_message() -> Seq<char> {
    "Invalid fuse table, table option "@ + OPT_KEY_DATABASE_ID@ + " not found"@
}

/// Derives the storage prefix of a table from its options and its id.
///
/// An explicit storage prefix among the options is returned as it stands.
/// Otherwise the database id must be among them, and the prefix is made of
/// it and the table id; for a temporary table it is nested under the
/// temporary name space and the table's temporary id. The result depends on
/// the arguments alone.
pub fn parse_storage_prefix(options: &TableOptions, table_id: u64) -> (r: Result<String, ErrorCode>)
    ensures
        match r {
            Ok(prefix) => storage_prefix_spec(options@, table_id as nat) == Some(prefix@),
            Err(e) => storage_prefix_spec(options@, table_id as nat) is None && (e matches ErrorCode::Configuration(
                m,
            ) && m@ == missing_database_id_message()),
        },
{
    if let Some(prefix) = options.get(OPT_KEY_STORAGE_PREFIX) {
        return Ok(prefix.clone());
    }
    let db_id = match options.get(OPT_KEY_DATABASE_ID) {
        Some(id) => id,
        None => {
            let mut message = String::from_str("Invalid fuse table, table option ");
            message.append(OPT_KEY_DATABASE_ID);
            message.append(" not found");
            return Err(ErrorCode::Configuration(message));
        },
    };
    let base = table_storage_prefix(db_id.as_str(), table_id);
    if let Some(temp_prefix) = options.get(OPT_KEY_TEMP_PREFIX) {
        proof {
            reveal_strlit("/");
        }
        let mut prefix = String::from_str(TEMP_TABLE_STORAGE_PREFIX);
        prefix.append("/");
        prefix.append(temp_prefix.as_str());
        prefix.append("/");
        prefix.append(base.as_str());
        Ok(prefix)
    } else {
        Ok(base)
    }
}

/// `key` without the marker of later collection, if it starts with one.
pub open spec fn trim_vacuum2_view(key: Seq<char>) -> Seq<char> {
    if key.len() > 0 && key[0] == 'g' {
        key.subrange(1, key.len() as int)
    } else {
        key
    }
}

/// Takes the marker of later collection off the front of an object's name.
/// A name without the marker is returned as it is.
pub fn trim_vacuum2_object_prefix(key: &str) -> (r: &str)
    ensures
        r@ == trim_vacuum2_view(key@),
{
    let n = key.unicode_len();
    if n > 0 && key.get_char(0) == 'g' {
        key.substring_char(1, n)
    } else {
        key
    }
}

/// The file stem of a path: its last component without the extension.
/// `None` where the path has no last component.
pub uninterp spec fn path_file_stem(path: Seq<char>) -> Option<Seq<char>>;

/// `std::path::Path::file_stem`, on text: the result is the stem that the
/// standard library finds in `path`, as text, and `None` where it finds
/// none. Nothing is claimed of what the stem is.
#[verifier::external_body]
fn file_stem<'a>(path: &'a str) -> (stem: Option<&'a str>)
    ensures
        match stem {
            Some(s) => path_file_stem(path@) == Some(s@),
            None => path_file_stem(path@) is None,
        },
{
    std::path::Path::new(path).file_stem().and_then(|s| s.to_str())
}

/// The unique identifier in a file stem: what stands before the first
/// underscore, without the marker of later collection.
pub open spec fn uuid_of_stem(stem: Seq<char>) -> Seq<char> {
    trim_vacuum2_view(stem.subrange(0, index_of(stem, '_')))
}

/// Extracts the unique identifier from the file stem of an object key.
pub fn extract_uuid_str_from_stem(stem: &str) -> (r: &str)
    ensures
        r@ == uuid_of_stem(stem@),
{
    let k = find_char(stem, '_');
    proof {
        lemma_index_of(stem@, '_');
    }
    let head = stem.substring_char(0, k);
    trim_vacuum2_object_prefix(head)
}

/// The message of the error for an object key without a file stem.
pub open spec fn no_file_stem_message(path: Seq<char>) -> Seq<char> {
    "Illegal object key, no file stem found: "@ + path
}

/// Extracts the unique identifier from an object key.
///
/// The identifier is the part of the key's file stem before the first
/// underscore, without the marker of later collection. A key without a file
/// stem is refused.
pub fn try_extract_uuid_str_from_path(path: &str) -> (r: Result<&str, ErrorCode>)
    ensures
        match r {
            Ok(uuid) => path_file_stem(path@) matches Some(stem) && uuid@ == uuid_of_stem(stem),
            Err(e) => path_file_stem(path@) is None && (e matches ErrorCode::StorageOther(m) && m@
                == no_file_stem_message(path@)),
        },
{
    match file_stem(path) {
        Some(stem) => Ok(extract_uuid_str_from_stem(stem)),
        None => {
            let mut message = String::from_str("Illegal object key, no file stem found: ");
            message.append(path);
            Err(ErrorCode::StorageOther(message))
        },
    }
}

/// The file stem of an object: the marker of later collection if it has one,
/// its unique identifier, and `_v` with the format version.
pub open spec fn object_stem_of(uuid: Seq<char>, format_version: nat, vacuum2: bool) -> Seq<char> {
    (if vacuum2 {
        seq!['g']
    } else {
        Seq::<char>::empty()
    }) + uuid + seq!['_', 'v'] + decimal(format_version)
}

/// The key of an object: the storage prefix, a slash, the object's file stem,
/// a dot and the extension.
pub open spec fn object_key_of(
    storage_prefix: Seq<char>,
    uuid: Seq<char>,
    format_version: nat,
    extension: Seq<char>,
    vacuum2: bool,
) -> Seq<char> {
    storage_prefix + seq!['/'] + object_stem_of(uuid, format_version, vacuum2) + seq!['.']
        + extension
}

/// Composes the file stem of an object from its unique identifier and format
/// version; `vacuum2` puts the marker of later collection in front.
pub fn object_stem(uuid: &str, format_version: u64, vacuum2: bool) -> (stem: String)
    ensures
        stem@ == object_stem_of(uuid@, format_version as nat, vacuum2),
{
    proof {
        reveal_strlit("g");
        reveal_strlit("");
        reveal_strlit("_v");
    }
    let mut stem = String::from_str(
        if vacuum2 {
            VACUUM2_OBJECT_KEY_PREFIX
        } else {
            ""
        },
    );
    stem.append(uuid);
    stem.append("_v");
    let version = u64_to_decimal(format_version);
    stem.append(version.as_str());
    stem
}

/// Composes the key of an object under a storage prefix.
pub fn object_key(
    storage_prefix: &str,
    uuid: &str,
    format_version: u64,
    extension: &str,
    vacuum2: bool,
) -> (key: String)
    ensures
        key@ == object_key_of(
            storage_prefix@,
            uuid@,
            format_version as nat,
            extension@,
            vacuum2,
        ),
{
    proof {
        reveal_strlit("/");
        reveal_strlit(".");
    }
    let mut key = String::from_str(storage_prefix);
    key.append("/");
    let stem = object_stem(uuid, format_version, vacuum2);
    key.append(stem.as_str());
    key.append(".");
    key.append(extension);
    key
}

/// Whether `uuid` can be found again in an object's name: it holds no
/// underscore and does not itself start with the marker of later collection.
pub open spec fn is_plain_uuid(uuid: Seq<char>) -> bool {
    &&& forall|i: int| 0 <= i < uuid.len() ==> uuid[i] != '_'
    &&& uuid.len() > 0 ==> uuid[0] != 'g'
}

/// The unique identifier put into a file stem is the one that is extracted
/// from it, with the marker of later collection and without it; and taking
/// the marker off a name leaves a name that the marker can be put back on.
pub proof fn lemma_uuid_round_trip(uuid: Seq<char>, format_version: nat, vacuum2: bool)
    requires
        is_plain_uuid(uuid),
    ensures
        uuid_of_stem(object_stem_of(uuid, format_version, vacuum2)) == uuid,
        trim_vacuum2_view(seq!['g'] + uuid) == uuid,
        trim_vacuum2_view(uuid) == uuid,
        object_stem_of(uuid, format_version, true) == seq!['g'] + object_stem_of(
            uuid,
            format_version,
            false,
        ),
        trim_vacuum2_view(object_stem_of(uuid, format_version, true)) == object_stem_of(
            uuid,
            format_version,
            false,
        ),
{
    let mark = if vacuum2 {
        seq!['g']
    } else {
        Seq::<char>::empty()
    };
    let stem = object_stem_of(uuid, format_version, vacuum2);
    let k = mark.len() + uuid.len();
    crate::text::lemma_index_of_unique(stem, '_', k as int);
}

} // verus!
