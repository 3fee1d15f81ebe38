use fuse_storage::cursor::{
    eq_ignore_ascii_case, format_bytes, is_ascii_digit, is_ascii_whitespace, Cursor,
    ReadBytesExt, ReadErrorKind,
};

fn cursor(text: &str) -> Cursor {
    Cursor::new(text.as_bytes().to_vec())
}

#[test]
fn peeking_does_not_read() {
    let c = cursor("ab");
    assert_eq!(c.peek(), Some('a'));
    assert_eq!(c.peek_byte(), Some(b'a'));
    assert_eq!(c.position(), 0);
    let e = cursor("");
    assert_eq!(e.peek(), None);
    assert_eq!(e.peek_byte(), None);
    let high = Cursor::new(vec![0xe9]);
    assert_eq!(high.peek(), Some('é'));
}

#[test]
fn ignore_passes_over_one_accepted_byte() {
    let mut c = cursor("a1");
    assert!(c.ignore(|b| b == b'a'));
    assert_eq!(c.position(), 1);
    assert!(!c.ignore(|b| b == b'a'));
    assert_eq!(c.position(), 1);
    assert!(c.ignore_byte(b'1'));
    assert!(!c.ignore_byte(b'1'));
    assert!(c.eof());
    assert!(!c.ignore(|_| true));
}

#[test]
fn ignores_passes_over_a_run() {
    let mut c = cursor("   x  ");
    assert_eq!(c.ignores(is_ascii_whitespace), 3);
    assert_eq!(c.ignores(is_ascii_whitespace), 0);
    assert_eq!(c.peek(), Some('x'));
    assert!(c.ignore_byte(b'x'));
    assert_eq!(c.ignores(is_ascii_whitespace), 2);
    assert!(c.eof());
    assert_eq!(c.ignores(is_ascii_whitespace), 0);
}

#[test]
fn ignore_bytes_wants_all_of_them() {
    let mut c = cursor("NULL,null");
    assert!(!c.ignore_bytes(b"null"));
    assert_eq!(c.position(), 0);
    assert!(c.ignore_insensitive_bytes(b"null"));
    assert_eq!(c.position(), 4);
    assert!(c.ignore_byte(b','));
    assert!(c.ignore_bytes(b"null"));
    assert!(!c.ignore_bytes(b"x"));
    assert!(c.ignore_bytes(b""));
    assert!(c.eof());
    let mut short = cursor("nu");
    assert!(!short.ignore_bytes(b"null"));
    assert!(!short.ignore_insensitive_bytes(b"NULL"));
    assert_eq!(short.position(), 0);
}

#[test]
fn comments_are_passed_over() {
    let mut c = cursor("-- a comment\nnext");
    assert!(c.ignore_comment());
    assert_eq!(c.peek(), Some('n'));
    assert!(!c.ignore_comment());

    let mut c = cursor("/* a\n comment */x");
    assert!(c.ignore_comment());
    assert_eq!(c.peek(), Some('x'));

    let mut c = cursor("/*/x");
    assert!(c.ignore_comment());
    assert_eq!(c.peek(), Some('x'));

    let mut c = cursor("/* never ended");
    assert!(c.ignore_comment());
    assert!(c.eof());

    let mut c = cursor("-- no end of line");
    assert!(c.ignore_comment());
    assert!(c.eof());

    let mut c = cursor("-");
    assert!(!c.ignore_comment());
    let mut c = cursor("- -");
    assert!(!c.ignore_comment());
    assert_eq!(c.position(), 0);
}

#[test]
fn white_space_and_comments_together() {
    let mut c = cursor("  -- one\n\t/* two */ \r\n-- three\nvalue ");
    assert!(c.ignore_white_spaces_or_comments());
    assert_eq!(c.peek(), Some('v'));
    assert!(!c.ignore_white_spaces_or_comments());
    assert_eq!(c.peek(), Some('v'));
    let mut e = cursor("");
    assert!(!e.ignore_white_spaces_or_comments());
}

#[test]
fn until_reads_up_to_the_delimiter() {
    let mut c = cursor("key=value");
    let mut buf = Vec::new();
    assert_eq!(c.until(b'=', &mut buf), 4);
    assert_eq!(buf, b"key=");
    assert_eq!(c.peek(), Some('v'));
    // no delimiter left: as many bytes are read as the buffer held
    assert_eq!(c.until(b'=', &mut buf), 4);
    assert_eq!(buf, b"key=valu");
    assert_eq!(c.peek(), Some('e'));
}

#[test]
fn keep_read_collects_accepted_bytes() {
    let mut c = cursor("2024-03");
    let mut buf = vec![b'>'];
    assert_eq!(c.keep_read(&mut buf, is_ascii_digit), 4);
    assert_eq!(buf, b">2024");
    assert_eq!(c.keep_read(&mut buf, is_ascii_digit), 0);
    assert!(c.ignore_byte(b'-'));
    assert_eq!(c.keep_read(&mut buf, is_ascii_digit), 2);
    assert_eq!(buf, b">202403");
    assert!(c.eof());
}

#[test]
fn must_functions_fail_with_invalid_data() {
    let mut c = cursor("ab");
    assert!(c.must_eof().is_err());
    let e = c.must_eof().unwrap_err();
    assert_eq!(e.kind, ReadErrorKind::InvalidData);
    assert_eq!(e.message, "Must reach the buffer end");

    assert!(c.must_ignore(|b| b == b'a').is_ok());
    let e = c.must_ignore(|b| b == b'a').unwrap_err();
    assert_eq!(e.kind, ReadErrorKind::InvalidData);
    assert_eq!(e.message, "Expected to ignore a byte");

    let e = c.must_ignore_byte(b'x').unwrap_err();
    assert_eq!(e.kind, ReadErrorKind::InvalidData);
    assert_eq!(
        e.message,
        "Expected to have char 'x', got 'Some('b')' at pos 1"
    );
    assert!(c.must_ignore_byte(b'b').is_ok());
    assert!(c.must_eof().is_ok());

    let mut c = cursor("true");
    let e = c.must_ignore_bytes(b"TRUE").unwrap_err();
    assert_eq!(e.message, "Expected to have bytes [84, 82, 85, 69]");
    let e = c.must_ignore_insensitive_bytes(b"no").unwrap_err();
    assert_eq!(e.message, "Expected to have insensitive bytes [110, 111]");
    assert!(c.must_ignore_insensitive_bytes(b"TRUE").is_ok());
    assert!(c.eof());
}

#[test]
fn small_byte_tests() {
    assert!(is_ascii_whitespace(b' ') && is_ascii_whitespace(0x0c) && !is_ascii_whitespace(0x0b));
    assert!(is_ascii_digit(b'0') && is_ascii_digit(b'9') && !is_ascii_digit(b'a'));
    assert!(eq_ignore_ascii_case(b'a', b'A') && !eq_ignore_ascii_case(b'@', b'`'));
    assert_eq!(format_bytes(&[]), "[]");
    assert_eq!(format_bytes(&[0, 255]), "[0, 255]");
}

#[test]
fn reading_exactly() {
    let mut c = cursor("abcdef");
    assert_eq!(c.read_exact(2).unwrap(), b"ab");
    assert_eq!(c.remaining_len(), 4);
    let e = c.read_exact(5).unwrap_err();
    assert_eq!(e.kind, ReadErrorKind::UnexpectedEof);
    assert_eq!(c.position(), 2);
    assert_eq!(c.read_exact(4).unwrap(), b"cdef");
    assert_eq!(c.read_exact(0).unwrap(), b"");
}
