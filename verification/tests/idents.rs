use fuse_storage::background_job_id_ident::BackgroundJobIdIdent;
use fuse_storage::connection_ident::ConnectionIdent;
use fuse_storage::key_escape::{escape, unescape};
use fuse_storage::tenant_key::{parse_u64, KeyError, Tenant, TenantResource};

#[test]
fn test_background_job_id_ident() {
    let tenant = Tenant::new_literal("dummy");
    let ident = BackgroundJobIdIdent::new(tenant, 3);

    let key = ident.to_string_key();
    assert_eq!(key, "__fd_background_job_by_id/3");

    assert_eq!(ident, BackgroundJobIdIdent::from_str_key(&key).unwrap());
}

#[test]
fn test_background_job_id_ident_with_key_space() {
    // keys of identities in a key space are not tested
}

#[test]
fn test_connection_ident() {
    let tenant = Tenant::new_literal("test");
    let ident = ConnectionIdent::new(tenant, "test1");

    let key = ident.to_string_key();
    assert_eq!(key, "__fd_connection/test/test1");

    assert_eq!(ident, ConnectionIdent::from_str_key(&key).unwrap());
}

#[test]
fn job_id_is_read_back() {
    let ident = BackgroundJobIdIdent::new(Tenant::new_literal("dummy"), 42);
    assert_eq!(ident.job_id().id(), 42);
    let raw = BackgroundJobIdIdent::new(Tenant::new_literal("dummy"), 7).to_raw();
    assert_eq!(raw.job_id().id(), 7);
    assert_eq!(raw.tenant_name(), "dummy");
}

#[test]
fn keys_that_are_refused() {
    assert_eq!(
        BackgroundJobIdIdent::from_str_key("__fd_other/3").unwrap_err(),
        KeyError::UnknownPrefix
    );
    assert_eq!(
        BackgroundJobIdIdent::from_str_key("__fd_background_job_by_id/").unwrap_err(),
        KeyError::EmptySegment
    );
    assert_eq!(
        BackgroundJobIdIdent::from_str_key("__fd_background_job_by_id/3/4").unwrap_err(),
        KeyError::WrongNumberOfSegments
    );
    assert_eq!(
        BackgroundJobIdIdent::from_str_key("__fd_background_job_by_id/x3").unwrap_err(),
        KeyError::InvalidId
    );
    assert_eq!(
        BackgroundJobIdIdent::from_str_key("__fd_background_job_by_id/18446744073709551616")
            .unwrap_err(),
        KeyError::InvalidId
    );
    assert_eq!(
        ConnectionIdent::from_str_key("__fd_connection/test").unwrap_err(),
        KeyError::WrongNumberOfSegments
    );
    assert_eq!(
        ConnectionIdent::from_str_key("__fd_connection//name").unwrap_err(),
        KeyError::EmptySegment
    );
    assert_eq!(
        ConnectionIdent::from_str_key("__fd_connection/test/a%zz").unwrap_err(),
        KeyError::InvalidSegment
    );
    assert_eq!(
        ConnectionIdent::from_str_key("__fd_connection/test/a%ff").unwrap_err(),
        KeyError::InvalidSegment
    );
}

#[test]
fn names_are_escaped_and_read_back() {
    assert_eq!(escape("a b/c_1"), "a%20b%2fc_1");
    assert_eq!(escape("é"), "%c3%a9");
    assert_eq!(unescape("a%20b%2Fc_1").unwrap(), b"a b/c_1".to_vec());
    assert_eq!(unescape("%c3%a9").unwrap(), "é".as_bytes().to_vec());
    assert_eq!(unescape("%4"), None);

    let ident = ConnectionIdent::new(Tenant::new_literal("t1"), "my conn/é");
    let key = ident.to_string_key();
    assert_eq!(key, "__fd_connection/t1/my%20conn%2f%c3%a9");
    assert_eq!(ident, ConnectionIdent::from_str_key(&key).unwrap());
}

#[test]
fn numbers_are_parsed_like_the_standard_library_does() {
    assert_eq!(parse_u64("0"), Some(0));
    assert_eq!(parse_u64("+17"), Some(17));
    assert_eq!(parse_u64("007"), Some(7));
    assert_eq!(parse_u64("18446744073709551615"), Some(u64::MAX));
    assert_eq!(parse_u64("18446744073709551616"), None);
    assert_eq!(parse_u64(""), None);
    assert_eq!(parse_u64("+"), None);
    assert_eq!(parse_u64("-1"), None);
    assert_eq!(parse_u64("1a"), None);
}

#[test]
fn each_kind_has_its_name_and_the_front_of_its_keys() {
    assert_eq!(
        fuse_storage::background_job_id_ident::Resource::kind_name(),
        "BackgroundJobIdIdent"
    );
    assert_eq!(
        fuse_storage::background_job_id_ident::Resource::key_prefix(),
        "__fd_background_job_by_id"
    );
    assert!(!fuse_storage::background_job_id_ident::Resource::key_has_tenant());
    assert_eq!(fuse_storage::connection_ident::Resource::kind_name(), "ConnectionIdent");
    assert_eq!(fuse_storage::connection_ident::Resource::key_prefix(), "__fd_connection");
    assert!(fuse_storage::connection_ident::Resource::key_has_tenant());
    assert_eq!(fuse_storage::virtual_column::Resource::kind_name(), "VirtualColumnIdent");
    assert_eq!(fuse_storage::virtual_column::Resource::key_prefix(), "__fd_virtual_column");
    assert!(fuse_storage::virtual_column::Resource::key_has_tenant());
}
