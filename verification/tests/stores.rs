use chrono_tz::Tz;
use fuse_storage::error::ErrorCode;
use fuse_storage::local_time::{choose_local_time, unwrap_local_time, LocalResult};
use fuse_storage::snapshot::{DataType, TypeKind};
use fuse_storage::snapshot_store::{
    DataVersion, ErrorVerb, RaftConfig, SnapshotConfig, SnapshotStoreError, SnapshotStoreV002,
};
use fuse_storage::tenant_key::{DataId, Tenant};
use fuse_storage::timestamp::Timestamp;
use fuse_storage::user_token::{QueryTokenInfo, TokenType};
use fuse_storage::virtual_column::{
    CreateOption, CreateVirtualColumnReq, DropVirtualColumnReq, ListVirtualColumnsReq,
    UpdateVirtualColumnReq, VirtualColumnIdent, VirtualField,
};

fn config() -> RaftConfig {
    RaftConfig {
        raft_dir: "/var/raft".to_string(),
        id: 3,
    }
}

#[test]
fn snapshot_store_settings() {
    let store = SnapshotStoreV002::new(config());
    assert_eq!(store.data_version(), DataVersion::V002);
    assert_eq!(*store.config(), config());
    assert_eq!(
        *store.snapshot_config(),
        SnapshotConfig::new(DataVersion::V002, config())
    );
    assert_eq!(
        store.snapshot_config().snapshot_dir(),
        "/var/raft/df_meta/V002/snapshot"
    );
    assert_eq!(
        store.snapshot_config().snapshot_path("1-0-5-77"),
        "/var/raft/df_meta/V002/snapshot/1-0-5-77.snap"
    );
    assert_eq!(SnapshotConfig::snapshot_fn("x"), "x.snap");
}

#[test]
fn snapshot_ids_in_file_names() {
    assert_eq!(
        SnapshotStoreV002::extract_snapshot_id_from_fn("1-0-5-77.snap"),
        Some("1-0-5-77")
    );
    assert_eq!(SnapshotStoreV002::extract_snapshot_id_from_fn(".snap"), Some(""));
    assert_eq!(SnapshotStoreV002::extract_snapshot_id_from_fn("1-0-5-77.tmp"), None);
    assert_eq!(SnapshotStoreV002::extract_snapshot_id_from_fn("snap"), None);
    assert_eq!(SnapshotStoreV002::extract_snapshot_id_from_fn("a.snap.bak"), None);
    assert_eq!(SnapshotStoreV002::choose_last_snapshot(&vec![3, 9, 4]), Some(4));
    assert_eq!(SnapshotStoreV002::choose_last_snapshot(&Vec::<u8>::new()), None);
}

#[test]
fn snapshot_store_errors_gather_context() {
    let mut e = SnapshotStoreError::read("no such file");
    assert_eq!(e.verb(), ErrorVerb::Read);
    assert_eq!(e.context(), "");
    e.add_context("opening");
    assert_eq!(e.context(), "opening");
    e.add_context("loading");
    assert_eq!(e.context(), "opening; while loading");
    let e = SnapshotStoreError::write("disk full")
        .with_context("saving")
        .with_meta("snapshot", "1-0-5-77");
    assert_eq!(e.verb(), ErrorVerb::Write);
    assert_eq!(e.source(), "disk full");
    assert_eq!(e.context(), "saving; while snapshot: 1-0-5-77");
    let e = SnapshotStoreV002::make_err("denied", "reading snapshot dir: /x");
    assert_eq!(e.verb(), ErrorVerb::Read);
    assert_eq!(e.context(), "reading snapshot dir: /x");
}

#[test]
fn token_types() {
    assert_eq!(TokenType::Refresh.to_string(), "r");
    assert_eq!(TokenType::Session.to_string(), "s");
    assert_eq!(TokenType::Refresh.number(), 1);
    assert_eq!(TokenType::Session.number(), 2);
    assert_eq!(TokenType::from_number(2), Some(TokenType::Session));
    assert_eq!(TokenType::from_number(0), None);
    assert_eq!(TokenType::try_from_byte(b'r'), Ok(TokenType::Refresh));
    assert_eq!(TokenType::try_from_byte(b's'), Ok(TokenType::Session));
    assert_eq!(
        TokenType::try_from_byte(b'x'),
        Err(ErrorCode::AuthenticateFailure(
            "invalid token type 'x'".to_string()
        ))
    );
    let info = QueryTokenInfo {
        token_type: TokenType::Session,
        parent: Some("p".to_string()),
    };
    assert_eq!(info.clone(), info);
}

fn ident(table_id: u64) -> VirtualColumnIdent {
    VirtualColumnIdent::new_generic(Tenant::new_literal("t1"), DataId::new(table_id))
}

#[test]
fn virtual_column_requests_in_words() {
    let field = VirtualField {
        expr: "data['id']".to_string(),
        data_type: DataType {
            kind: TypeKind::Number,
            nullable: true,
        },
        alias_name: None,
    };
    assert_eq!(field.to_string(), "data['id']::NUMBER");
    let aliased = VirtualField {
        alias_name: Some("id".to_string()),
        ..field.clone()
    };
    assert_eq!(aliased.to_string(), "data['id']::NUMBER AS id");
    let drop = DropVirtualColumnReq {
        if_exists: true,
        name_ident: ident(55),
    };
    assert_eq!(drop.to_string(), "drop_virtual_column for 't1'/'55'");
    assert_eq!(ident(55).to_string_key(), "__fd_virtual_column/t1/55");
    let create = CreateVirtualColumnReq {
        create_option: CreateOption::Create,
        name_ident: ident(55),
        virtual_columns: vec![field.clone()],
        auto_generated: false,
    };
    let text = create.to_string();
    assert!(text.starts_with("create_virtual_column ([VirtualField { expr: \"data['id']\""));
    assert!(text.ends_with(") for 't1'/'55'"));
    let update = UpdateVirtualColumnReq {
        if_exists: false,
        name_ident: ident(5),
        virtual_columns: vec![],
        auto_generated: true,
    };
    assert_eq!(update.to_string(), "update_virtual_column ([]) for 't1'/'5'");
    let list = ListVirtualColumnsReq::new(&Tenant::new_literal("t2"), Some(9));
    assert_eq!(list.tenant.tenant, "t2");
    assert_eq!(list.table_id, Some(9));
}

fn at(secs: i64) -> Timestamp {
    Timestamp { secs, nanos: 0 }
}

#[test]
fn local_times_are_chosen() {
    assert_eq!(
        choose_local_time(LocalResult::Single(at(5)), false, None),
        Ok(at(5))
    );
    assert_eq!(
        choose_local_time(LocalResult::Ambiguous(at(5), at(9)), true, None),
        Ok(at(5))
    );
    assert_eq!(
        choose_local_time(LocalResult::Ambiguous(at(5), at(9)), false, None),
        Ok(at(9))
    );
    assert!(matches!(
        choose_local_time(LocalResult::NoTime, false, Some(LocalResult::Single(at(1)))),
        Err(ErrorCode::BadArguments(_))
    ));
    assert_eq!(
        choose_local_time(LocalResult::NoTime, true, Some(LocalResult::Single(at(1)))),
        Ok(at(1))
    );
    assert_eq!(
        choose_local_time(
            LocalResult::NoTime,
            true,
            Some(LocalResult::Ambiguous(at(1), at(2)))
        ),
        Ok(at(1))
    );
    assert!(choose_local_time(LocalResult::NoTime, true, Some(LocalResult::NoTime)).is_err());
    assert!(choose_local_time(LocalResult::NoTime, true, None).is_err());
}

#[test]
fn local_times_in_a_zone() {
    // 2021-03-28 01:30:00 did not happen in London: the clocks went from 1 to 2
    let missing: i64 = 1_616_895_000;
    assert!(unwrap_local_time(&Tz::Europe__London, false, missing, 0).is_err());
    // with the fix the time an hour later is taken, which is 01:30 UTC
    assert_eq!(
        unwrap_local_time(&Tz::Europe__London, true, missing, 0),
        Ok(at(missing))
    );
    // 2021-10-31 01:30:00 happened twice in London
    let twice: i64 = 1_635_643_800;
    assert_eq!(
        unwrap_local_time(&Tz::Europe__London, true, twice, 0),
        Ok(at(twice - 3600))
    );
    assert_eq!(
        unwrap_local_time(&Tz::Europe__London, false, twice, 0),
        Ok(at(twice))
    );
    assert_eq!(
        unwrap_local_time(&Tz::Asia__Shanghai, false, 1_600_000_000, 5),
        Ok(Timestamp {
            secs: 1_600_000_000 - 8 * 3600,
            nanos: 5
        })
    );
    assert!(unwrap_local_time(&Tz::UTC, true, i64::MAX, 0).is_err());
}

#[test]
fn texts_that_stand_for_no_value() {
    use_settings();
}

fn use_settings() {
    let settings = fuse_storage::common_settings::InputCommonSettings {
        true_bytes: b"true".to_vec(),
        false_bytes: b"false".to_vec(),
        null_if: vec![b"NULL".to_vec(), b"\\N".to_vec(), vec![]],
        timezone: Tz::UTC,
        jiff_timezone: jiff::tz::TimeZone::UTC,
        disable_variant_check: false,
        binary_format: fuse_storage::common_settings::BinaryFormat::Hex,
        is_rounding_mode: true,
        enable_dst_hour_fix: false,
    };
    assert!(settings.is_null(b"NULL"));
    assert!(settings.is_null(b"\\N"));
    assert!(settings.is_null(b""));
    assert!(!settings.is_null(b"null"));
    assert!(!settings.is_null(b"NULLS"));
    assert!(fuse_storage::common_settings::same_bytes(b"ab", b"ab"));
    assert!(!fuse_storage::common_settings::same_bytes(b"ab", b"ac"));
}
