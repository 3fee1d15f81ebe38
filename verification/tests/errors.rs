use fuse_storage::column_error::Error;
use fuse_storage::error::ErrorCode;
use fuse_storage::lock::LockTableOption;
use fuse_storage::symbol::Symbol;
use std::cmp::Ordering;

#[test]
fn column_errors_in_words() {
    assert_eq!(
        Error::nyi("lists").to_string(),
        "Not yet implemented: lists"
    );
    assert_eq!(Error::oos("bad page").to_string(), "bad page");
    assert_eq!(
        Error::from_external_error("broken pipe").to_string(),
        "External error: broken pipe"
    );
    assert_eq!(
        Error::from_external_error(std::fmt::Error),
        Error::External(
            "".to_string(),
            "an error occurred when formatting an argument".to_string()
        )
    );
    assert_eq!(
        Error::External(" here".to_string(), "why".to_string()).to_string(),
        "External error here: why"
    );
    assert_eq!(Error::Io("eof".to_string()).to_string(), "Io error: eof");
    assert_eq!(
        Error::InvalidArgumentError("x".to_string()).to_string(),
        "Invalid argument error: x"
    );
    assert_eq!(
        Error::ExternalFormat("y".to_string()).to_string(),
        "External format error: y"
    );
    assert_eq!(
        Error::Overflow.to_string(),
        "Operation overflew the backing container."
    );
}

#[test]
fn column_errors_become_errors_of_the_core() {
    assert_eq!(
        Error::nyi("lists").into_error_code(),
        ErrorCode::Unimplemented("arrow: lists".to_string())
    );
    assert_eq!(
        Error::Overflow.into_error_code(),
        ErrorCode::Internal("Operation overflew the backing container.".to_string())
    );
    assert_eq!(
        ErrorCode::StorageOther("key".to_string()).message(),
        "key"
    );
}

#[test]
fn symbols_by_address() {
    let mut a = Symbol {
        name: b"a",
        address_begin: 10,
        address_end: 20,
    };
    let mut b = Symbol {
        name: b"b",
        address_begin: 10,
        address_end: 20,
    };
    let mut c = Symbol {
        name: b"c",
        address_begin: 11,
        address_end: 20,
    };
    assert_eq!(a.sort_begin_address(&b), Ordering::Equal);
    assert_eq!(a.sort_begin_address(&c), Ordering::Less);
    assert_eq!(c.sort_begin_address(&a), Ordering::Greater);
    assert!(a.same_address(&mut b));
    assert!(!a.same_address(&mut c));
    c.address_begin = 10;
    c.address_end = 21;
    assert!(!a.same_address(&mut c));
}

#[test]
fn lock_options() {
    assert!(!LockTableOption::NoLock.takes_lock());
    assert!(LockTableOption::LockWithRetry.takes_lock());
    assert!(LockTableOption::LockNoRetry.takes_lock());
    assert!(LockTableOption::LockWithRetry.should_retry());
    assert!(!LockTableOption::LockNoRetry.should_retry());
}
