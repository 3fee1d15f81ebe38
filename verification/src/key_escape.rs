//! Escaping of names for keys: every character but letters, digits and the
//! underscore is written as the bytes of its UTF-8 form, each as a percent
//! sign and two hexadecimal digits.

use vstd::prelude::*;
use vstd::string::*;
use vstd::utf8::{encode_scalar, encode_utf8, valid_utf8};
use crate::tenant_key::{KeyError, KeyName};

verus! {

/// Whether `c` stands for itself in a key.
pub open spec fn is_plain(c: char) -> bool {
    ('a' <= c && c <= 'z') || ('A' <= c && c <= 'Z') || ('0' <= c && c <= '9') || c == '_'
}

/// The hexadecimal digit of the value `d`.
pub open spec fn hex_char(d: int) -> char {
    if d == 0 {
        '0'
    } else if d == 1 {
        '1'
    } else if d == 2 {
        '2'
    } else if d == 3 {
        '3'
    } else if d == 4 {
        '4'
    } else if d == 5 {
        '5'
    } else if d == 6 {
        '6'
    } else if d == 7 {
        '7'
    } else if d == 8 {
        '8'
    } else if d == 9 {
        '9'
    } else if d == 10 {
        'a'
    } else if d == 11 {
        'b'
    } else if d == 12 {
        'c'
    } else if d == 13 {
        'd'
    } else if d == 14 {
        'e'
    } else {
        'f'
    }
}

/// The value of a hexadecimal digit, small or capital; `None` for any
/// other character.
pub open spec fn hex_value(c: char) -> Option<u8> {
    if c == '0' {
        Some(0u8)
    } else if c == '1' {
        Some(1u8)
    } else if c == '2' {
        Some(2u8)
    } else if c == '3' {
        Some(3u8)
    } else if c == '4' {
        Some(4u8)
    } else if c == '5' {
        Some(5u8)
    } else if c == '6' {
        Some(6u8)
    } else if c == '7' {
        Some(7u8)
    } else if c == '8' {
        Some(8u8)
    } else if c == '9' {
        Some(9u8)
    } else if c == 'a' || c == 'A' {
        Some(10u8)
    } else if c == 'b' || c == 'B' {
        Some(11u8)
    } else if c == 'c' || c == 'C' {
        Some(12u8)
    } else if c == 'd' || c == 'D' {
        Some(13u8)
    } else if c == 'e' || c == 'E' {
        Some(14u8)
    } else if c == 'f' || c == 'F' {
        Some(15u8)
    } else {
        None
    }
}

/// A byte as it is written in a key: a percent sign and two digits.
pub open spec fn escaped_byte(b: u8) -> Seq<char> {
    seq!['%', hex_char(b as int / 16), hex_char(b as int % 16)]
}

/// Bytes as they are written in a key, one after the other.
pub open spec fn escaped_bytes(bytes: Seq<u8>) -> Seq<char>
    decreases bytes.len(),
{
    if bytes.len() == 0 {
        Seq::empty()
    } else {
        escaped_byte(bytes[0]) + escaped_bytes(bytes.drop_first())
    }
}

/// A character as it is written in a key.
pub open spec fn escaped_char(c: char) -> Seq<char> {
    if is_plain(c) {
        seq![c]
    } else {
        escaped_bytes(encode_scalar(c as u32))
    }
}

/// A name as it is written in a key.
pub open spec fn escaped(name: Seq<char>) -> Seq<char>
    decreases name.len(),
{
    if name.len() == 0 {
        Seq::empty()
    } else {
        escaped_char(name[0]) + escaped(name.drop_first())
    }
}

/// The bytes of the name that is written as `text` in a key: an escaped
/// byte gives that byte, any other character the bytes of its UTF-8 form.
/// `None` where a percent sign is not followed by two hexadecimal digits.
pub open spec fn unescaped(text: Seq<char>) -> Option<Seq<u8>>
    decreases text.len(),
{
    if text.len() == 0 {
        Some(Seq::empty())
    } else if text[0] == '%' {
        if text.len() < 3 {
            None
        } else {
            match (hex_value(text[1]), hex_value(text[2]), unescaped(text.subrange(3, text.len() as int))) {
                (Some(high), Some(low), Some(rest)) => Some(seq![(high * 16 + low) as u8] + rest),
                _ => None,
            }
        }
    } else {
        match unescaped(text.drop_first()) {
            Some(rest) => Some(encode_scalar(text[0] as u32) + rest),
            None => None,
        }
    }
}

/// The text of a hexadecimal digit.
pub(crate) fn hex_str(d: u8) -> (s: &'static str)
    requires
        d < 16,
    ensures
        s@ == seq![hex_char(d as int)],
{
    proof {
        reveal_strlit("0");
        reveal_strlit("1");
        reveal_strlit("2");
        reveal_strlit("3");
        reveal_strlit("4");
        reveal_strlit("5");
        reveal_strlit("6");
        reveal_strlit("7");
        reveal_strlit("8");
        reveal_strlit("9");
        reveal_strlit("a");
        reveal_strlit("b");
        reveal_strlit("c");
        reveal_strlit("d");
        reveal_strlit("e");
        reveal_strlit("f");
    }
    let s = if d == 0 {
        "0"
    } else if d == 1 {
        "1"
    } else if d == 2 {
        "2"
    } else if d == 3 {
        "3"
    } else if d == 4 {
        "4"
    } else if d == 5 {
        "5"
    } else if d == 6 {
        "6"
    } else if d == 7 {
        "7"
    } else if d == 8 {
        "8"
    } else if d == 9 {
        "9"
    } else if d == 10 {
        "a"
    } else if d == 11 {
        "b"
    } else if d == 12 {
        "c"
    } else if d == 13 {
        "d"
    } else if d == 14 {
        "e"
    } else {
        "f"
    };
    s
}

/// The value of a hexadecimal digit.
fn hex_of(c: char) -> (r: Option<u8>)
    ensures
        r == hex_value(c),
        r matches Some(d) ==> d < 16,
{
    if c == '0' {
        Some(0)
    } else if c == '1' {
        Some(1)
    } else if c == '2' {
        Some(2)
    } else if c == '3' {
        Some(3)
    } else if c == '4' {
        Some(4)
    } else if c == '5' {
        Some(5)
    } else if c == '6' {
        Some(6)
    } else if c == '7' {
        Some(7)
    } else if c == '8' {
        Some(8)
    } else if c == '9' {
        Some(9)
    } else if c == 'a' || c == 'A' {
        Some(10)
    } else if c == 'b' || c == 'B' {
        Some(11)
    } else if c == 'c' || c == 'C' {
        Some(12)
    } else if c == 'd' || c == 'D' {
        Some(13)
    } else if c == 'e' || c == 'E' {
        Some(14)
    } else if c == 'f' || c == 'F' {
        Some(15)
    } else {
        None
    }
}

/// Whether a character stands for itself in a key.
pub fn is_plain_char(c: char) -> (r: bool)
    ensures
        r == is_plain(c),
{
    ('a' <= c && c <= 'z') || ('A' <= c && c <= 'Z') || ('0' <= c && c <= '9') || c == '_'
}

/// Writes bytes as they stand in a key, behind what `out` holds.
fn append_escaped_bytes(out: &mut String, bytes: &[u8])
    ensures
        final(out)@ == old(out)@ + escaped_bytes(bytes@),
{
    let mut i: usize = 0;
    assert(bytes@.subrange(0, bytes@.len() as int) =~= bytes@);
    while i < bytes.len()
        invariant
            i <= bytes.len(),
            out@ + escaped_bytes(bytes@.subrange(i as int, bytes@.len() as int)) == old(out)@
                + escaped_bytes(bytes@),
        decreases bytes.len() - i,
    {
        let b: u8 = bytes[i];
        let ghost rest = bytes@.subrange(i as int, bytes@.len() as int);
        out.append("%");
        out.append(hex_str(b / 16));
        out.append(hex_str(b % 16));
        proof {
            reveal_strlit("%");
            assert(rest.drop_first() =~= bytes@.subrange(i + 1, bytes@.len() as int));
        }
        i += 1;
    }
}

/// Escapes a name for a key.
pub fn escape(name: &str) -> (r: String)
    ensures
        r@ == escaped(name@),
{
    let n = name.unicode_len();
    let mut out = String::from_str("");
    proof {
        reveal_strlit("");
        assert(name@.subrange(0, n as int) =~= name@);
    }
    let mut i: usize = 0;
    while i < n
        invariant
            i <= n,
            n == name@.len(),
            out@ + escaped(name@.subrange(i as int, n as int)) == escaped(name@),
        decreases n - i,
    {
        let c = name.get_char(i);
        let one = name.substring_char(i, i + 1);
        let ghost rest = name@.subrange(i as int, n as int);
        proof {
            assert(rest.drop_first() =~= name@.subrange(i + 1, n as int));
        }
        if is_plain_char(c) {
            out.append(one);
        } else {
            proof {
                assert(encode_utf8(one@) =~= encode_scalar(c as u32)) by {
                    reveal_with_fuel(encode_utf8, 2);
                }
            }
            append_escaped_bytes(&mut out, one.as_bytes());
        }
        i += 1;
    }
    out
}

/// Puts the bytes of `from` behind those of `into`.
fn append_bytes(into: &mut Vec<u8>, from: &[u8])
    ensures
        final(into)@ == old(into)@ + from@,
{
    let mut i: usize = 0;
    while i < from.len()
        invariant
            i <= from.len(),
            into@ == old(into)@ + from@.subrange(0, i as int),
        decreases from.len() - i,
    {
        into.push(from[i]);
        i += 1;
    }
}

/// What unescaping `all` gives, where `done` are the bytes of its front and
/// `rest` is what is left of it.
spec fn unescaped_from(done: Seq<u8>, rest: Seq<char>) -> Option<Seq<u8>> {
    match unescaped(rest) {
        Some(bytes) => Some(done + bytes),
        None => None,
    }
}

/// Unescapes a part of a key into the bytes of the name.
pub fn unescape(text: &str) -> (r: Option<Vec<u8>>)
    ensures
        match r {
            Some(bytes) => unescaped(text@) == Some(bytes@),
            None => unescaped(text@) is None,
        },
{
    let n = text.unicode_len();
    let mut out: Vec<u8> = Vec::new();
    let mut i: usize = 0;
    proof {
        assert(text@.subrange(0, n as int) =~= text@);
    }
    while i < n
        invariant
            i <= n,
            n == text@.len(),
            unescaped_from(out@, text@.subrange(i as int, n as int)) == unescaped(text@),
        decreases n - i,
    {
        let c = text.get_char(i);
        let ghost rest = text@.subrange(i as int, n as int);
        let ghost before = out@;
        if c == '%' {
            if n - i < 3 {
                return None;
            }
            let high = hex_of(text.get_char(i + 1));
            let low = hex_of(text.get_char(i + 2));
            proof {
                assert(rest.subrange(3, rest.len() as int) =~= text@.subrange(i + 3, n as int));
            }
            match (high, low) {
                (Some(h), Some(l)) => {
                    out.push(h * 16 + l);
                    proof {
                        let tail = unescaped(text@.subrange(i + 3, n as int));
                        if tail is Some {
                            assert(before + (seq![(h * 16 + l) as u8] + tail->Some_0) =~= out@
                                + tail->Some_0);
                        }
                    }
                    i += 3;
                },
                _ => {
                    return None;
                },
            }
        } else {
            let one = text.substring_char(i, i + 1);
            proof {
                assert(encode_utf8(one@) =~= encode_scalar(c as u32)) by {
                    reveal_with_fuel(encode_utf8, 2);
                }
                assert(rest.drop_first() =~= text@.subrange(i + 1, n as int));
            }
            append_bytes(&mut out, one.as_bytes());
            proof {
                let tail = unescaped(text@.subrange(i + 1, n as int));
                if tail is Some {
                    assert(before + (encode_scalar(c as u32) + tail->Some_0) =~= out@
                        + tail->Some_0);
                }
            }
            i += 1;
        }
    }
    Some(out)
}

/// `String::from_utf8`: the text whose UTF-8 form the bytes are, where
/// they are the UTF-8 form of a text, and `None` where they are not.
#[verifier::external_body]
pub(crate) fn string_from_utf8(bytes: Vec<u8>) -> (r: Option<String>)
    ensures
        match r {
            Some(s) => valid_utf8(bytes@) && encode_utf8(s@) == bytes@,
            None => !valid_utf8(bytes@),
        },
{
    String::from_utf8(bytes).ok()
}

impl KeyName for String {
    open spec fn key_text(&self) -> Seq<char> {
        escaped(self@)
    }

    open spec fn reads_as(text: Seq<char>, name: Self) -> bool {
        unescaped(text) == Some(encode_utf8(name@))
    }

    open spec fn readable(text: Seq<char>) -> bool {
        unescaped(text) matches Some(bytes) && valid_utf8(bytes)
    }

    fn encode_key(&self) -> (r: String) {
        escape(self.as_str())
    }

    fn decode_key(text: &str) -> (r: Result<Self, KeyError>) {
        match unescape(text) {
            Some(bytes) => match string_from_utf8(bytes) {
                Some(name) => Ok(name),
                None => Err(KeyError::InvalidSegment),
            },
            None => Err(KeyError::InvalidSegment),
        }
    }
}

/// The digit of a value below sixteen is read back as that value.
proof fn lemma_hex_round_trip(d: int)
    requires
        0 <= d < 16,
    ensures
        hex_value(hex_char(d)) == Some(d as u8),
{
}

/// Escaped bytes in front of a text are read back as those bytes in front
/// of what the text is read back as.
proof fn lemma_unescape_escaped_bytes(bytes: Seq<u8>, text: Seq<char>)
    ensures
        unescaped(escaped_bytes(bytes) + text) == unescaped_from(bytes, text),
    decreases bytes.len(),
{
    if bytes.len() == 0 {
    } else {
        let b = bytes[0];
        let all = escaped_bytes(bytes) + text;
        let tail = escaped_bytes(bytes.drop_first()) + text;
        assert(all.subrange(3, all.len() as int) =~= tail);
        lemma_hex_round_trip(b as int / 16);
        lemma_hex_round_trip(b as int % 16);
        lemma_unescape_escaped_bytes(bytes.drop_first(), text);
    }
}

/// A name that is escaped and read back is the name, as the bytes of its
/// UTF-8 form; and the escaped name holds no slash.
pub proof fn lemma_escape_round_trip(name: Seq<char>)
    ensures
        unescaped(escaped(name)) == Some(encode_utf8(name)),
        forall|i: int| 0 <= i < escaped(name).len() ==> escaped(name)[i] != '/',
        name.len() > 0 ==> escaped(name).len() > 0,
    decreases name.len(),
{
    if name.len() == 0 {
    } else {
        let c = name[0];
        let rest = name.drop_first();
        lemma_escape_round_trip(rest);
        let tail = escaped(rest);
        if is_plain(c) {
            let all = seq![c] + tail;
            assert(all.drop_first() =~= tail);
        } else {
            lemma_unescape_escaped_bytes(encode_scalar(c as u32), tail);
        }
        lemma_escaped_char_no_slash(c);
    }
}

/// Escaped bytes hold no slash, and as many characters as three to a byte.
proof fn lemma_escaped_bytes_no_slash(bytes: Seq<u8>)
    ensures
        forall|i: int| 0 <= i < escaped_bytes(bytes).len() ==> escaped_bytes(bytes)[i] != '/',
        escaped_bytes(bytes).len() == 3 * bytes.len(),
    decreases bytes.len(),
{
    if bytes.len() > 0 {
        lemma_escaped_bytes_no_slash(bytes.drop_first());
    }
}

/// An escaped character holds no slash and is not empty.
proof fn lemma_escaped_char_no_slash(c: char)
    ensures
        forall|i: int| 0 <= i < escaped_char(c).len() ==> escaped_char(c)[i] != '/',
        escaped_char(c).len() > 0,
{
    if !is_plain(c) {
        lemma_escaped_bytes_no_slash(encode_scalar(c as u32));
    }
}

} // verus!
