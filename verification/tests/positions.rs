use fuse_storage::position::{position1, position16, position2, position3, position4};

#[test]
fn first_byte_of_a_set() {
    assert_eq!(position1::<true, b','>(b"ab,cd,"), 2);
    assert_eq!(position1::<true, b','>(b"abcd"), 4);
    assert_eq!(position1::<true, b','>(b""), 0);
    assert_eq!(position2::<true, b'\r', b'\n'>(b"line one\nline two"), 8);
    assert_eq!(position3::<true, b'a', b'b', b'c'>(b"xyzc"), 3);
    assert_eq!(position4::<true, b'1', b'2', b'3', b'4'>(b"hello 42"), 6);
}

#[test]
fn first_byte_outside_a_set() {
    assert_eq!(position1::<false, b' '>(b"   x"), 3);
    assert_eq!(position2::<false, b' ', b'\t'>(b" \t \t"), 4);
    assert_eq!(position1::<false, b'a'>(b"b"), 0);
}

#[test]
fn zero_counts_only_in_the_first_place() {
    // a zero byte belongs to the set of position1::<_, 0>, but the zeros
    // that fill up a shorter set do not
    assert_eq!(position1::<true, 0>(b"ab\0c"), 2);
    assert_eq!(position1::<true, b'c'>(b"ab\0c"), 3);
    assert_eq!(position1::<false, b'a'>(b"aa\0a"), 2);
}

#[test]
fn sixteen_bytes_and_long_buffers() {
    let mut buf = vec![b'.'; 100];
    buf[77] = b'p';
    assert_eq!(
        position16::<
            true,
            b'a',
            b'b',
            b'c',
            b'd',
            b'e',
            b'f',
            b'g',
            b'h',
            b'i',
            b'j',
            b'k',
            b'l',
            b'm',
            b'n',
            b'o',
            b'p',
        >(&buf),
        77
    );
    assert_eq!(position1::<true, b'q'>(&buf), 100);
}
