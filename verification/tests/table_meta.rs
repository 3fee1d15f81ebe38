use fuse_storage::error::ErrorCode;
use fuse_storage::table_meta::{
    extract_uuid_str_from_stem, object_key, object_stem, parse_storage_prefix,
    table_storage_prefix, trim_vacuum2_object_prefix, try_extract_uuid_str_from_path,
    OPT_KEY_DATABASE_ID, OPT_KEY_STORAGE_PREFIX, OPT_KEY_TEMP_PREFIX,
};
use fuse_storage::table_options::TableOptions;

#[test]
fn test_trim_vacuum2_object_prefix() {
    let uuid = uuid::Uuid::now_v7();
    assert_eq!(
        trim_vacuum2_object_prefix(&format!("g{}", uuid)),
        uuid.to_string()
    );
    assert_eq!(
        trim_vacuum2_object_prefix(&uuid.to_string()),
        uuid.to_string()
    );
}

#[test]
fn test_try_extract_uuid_str_from_path() {
    let test_cases = vec![
        (
            "bucket/root/115/122/_b/g0191114d30fd78b89fae8e5c88327725_v2.parquet",
            "0191114d30fd78b89fae8e5c88327725",
        ),
        (
            "bucket/root/115/122/_b/0191114d30fd78b89fae8e5c88327725_v2.parquet",
            "0191114d30fd78b89fae8e5c88327725",
        ),
    ];

    for (input, expected) in test_cases {
        assert_eq!(try_extract_uuid_str_from_path(input).unwrap(), expected);
    }
}

#[test]
fn storage_prefix_from_database_and_table_id() {
    let mut options = TableOptions::new();
    options.insert(OPT_KEY_DATABASE_ID, "115");
    let first = parse_storage_prefix(&options, 122).unwrap();
    assert_eq!(first, table_storage_prefix("115", 122));
    assert_eq!(first, "115/122");
    let again = parse_storage_prefix(&options, 122).unwrap();
    assert_eq!(first, again);
}

#[test]
fn identifier_is_found_again_in_a_generated_key() {
    let uuid = "0191114d30fd78b89fae8e5c88327725";
    for vacuum2 in [false, true] {
        let key = object_key("bucket/root/115/122/_b", uuid, 2, "parquet", vacuum2);
        assert_eq!(try_extract_uuid_str_from_path(&key).unwrap(), uuid);
        let stem = object_stem(uuid, 2, vacuum2);
        assert_eq!(extract_uuid_str_from_stem(&stem), uuid);
    }
    assert_eq!(
        object_key("p", "abc", 10, "json", true),
        "p/gabc_v10.json"
    );
    assert_eq!(object_key("p", "abc", 0, "json", false), "p/abc_v0.json");
    assert_eq!(trim_vacuum2_object_prefix("g"), "");
    assert_eq!(trim_vacuum2_object_prefix(""), "");
    assert_eq!(trim_vacuum2_object_prefix("gg1"), "g1");
}

#[test]
fn keys_without_a_file_stem_are_refused() {
    assert_eq!(
        try_extract_uuid_str_from_path(""),
        Err(ErrorCode::StorageOther(
            "Illegal object key, no file stem found: ".to_string()
        ))
    );
    assert_eq!(
        try_extract_uuid_str_from_path("a/b/.."),
        Err(ErrorCode::StorageOther(
            "Illegal object key, no file stem found: a/b/..".to_string()
        ))
    );
    assert_eq!(try_extract_uuid_str_from_path("a/b.c.d"), Ok("b.c"));
}

#[test]
fn storage_prefix_of_other_options() {
    let mut options = TableOptions::new();
    assert_eq!(
        parse_storage_prefix(&options, 1),
        Err(ErrorCode::Configuration(
            "Invalid fuse table, table option database_id not found".to_string()
        ))
    );
    options.insert(OPT_KEY_DATABASE_ID, "7");
    options.insert(OPT_KEY_TEMP_PREFIX, "session-9");
    assert_eq!(
        parse_storage_prefix(&options, u64::MAX).unwrap(),
        "_tmp_tbl/session-9/7/18446744073709551615"
    );
    options.insert(OPT_KEY_STORAGE_PREFIX, "given/as/it/stands");
    assert_eq!(
        parse_storage_prefix(&options, 1).unwrap(),
        "given/as/it/stands"
    );
    options.insert(OPT_KEY_STORAGE_PREFIX, "replaced");
    assert_eq!(parse_storage_prefix(&options, 1).unwrap(), "replaced");
    assert_eq!(table_storage_prefix("", 0), "/0");
}
