//! Reading from a buffer of bytes: looking at what comes next, and passing
//! over bytes that are expected or that a test accepts.

use vstd::prelude::*;
use vstd::string::*;
use crate::text::u64_to_decimal;

verus! {

/// A buffer of bytes and a place in it. What is before the place has been
/// read; what is from the place on remains.
pub struct Cursor {
    data: Vec<u8>,
    pos: usize,
}

/// Why a read failed.
#[derive(Debug, Clone, Copy, PartialEq, Eq, Structural)]
pub enum ReadErrorKind {
    /// The bytes are not what was expected.
    InvalidData,
    /// The buffer ended before everything was read.
    UnexpectedEof,
}

/// A failed read: why it failed, and a message.
#[derive(Debug, Clone, PartialEq, Eq)]
pub struct ReadError {
    pub kind: ReadErrorKind,
    pub message: String,
}

/// Whether `b` is a space, a tab, a line feed, a form feed or a carriage
/// return.
pub open spec fn is_whitespace(b: u8) -> bool {
    b == 0x20 || b == 0x09 || b == 0x0a || b == 0x0c || b == 0x0d
}

/// Whether `b` is a decimal digit.
pub open spec fn is_digit(b: u8) -> bool {
    0x30 <= b <= 0x39
}

/// `b` as a small letter, if it is a capital letter; else `b`.
pub open spec fn to_lower(b: u8) -> u8 {
    if 0x41 <= b <= 0x5a {
        (b + 0x20) as u8
    } else {
        b
    }
}

/// Whether `b` is a space, a tab, a line feed, a form feed or a carriage
/// return.
pub fn is_ascii_whitespace(b: u8) -> (r: bool)
    ensures
        r == is_whitespace(b),
{
    b == 0x20 || b == 0x09 || b == 0x0a || b == 0x0c || b == 0x0d
}

/// Whether `b` is a decimal digit.
pub fn is_ascii_digit(b: u8) -> (r: bool)
    ensures
        r == is_digit(b),
{
    0x30 <= b && b <= 0x39
}

/// Whether two bytes are the same letter in small or capital, or the same
/// byte.
pub fn eq_ignore_ascii_case(a: u8, b: u8) -> (r: bool)
    ensures
        r == (to_lower(a) == to_lower(b)),
{
    let x: u8 = if 0x41 <= a && a <= 0x5a {
        a + 0x20
    } else {
        a
    };
    let y: u8 = if 0x41 <= b && b <= 0x5a {
        b + 0x20
    } else {
        b
    };
    x == y
}

/// How many bytes at the front of `bytes` the test `f` accepts: it accepts
/// each of the first `n`, and the one after them, if there is one, it
/// refuses.
pub open spec fn accepts_run<F: Fn(u8) -> bool>(f: F, bytes: Seq<u8>, n: int) -> bool {
    &&& 0 <= n <= bytes.len()
    &&& forall|i: int| 0 <= i < n ==> f.ensures((#[trigger] bytes[i],), true)
    &&& n < bytes.len() ==> f.ensures((bytes[n],), false)
}

/// Whether `bytes` starts with `prefix`.
pub open spec fn starts_with(bytes: Seq<u8>, prefix: Seq<u8>) -> bool {
    prefix.len() <= bytes.len() && bytes.subrange(0, prefix.len() as int) == prefix
}

/// Whether `bytes` starts with `prefix`, small and capital letters taken
/// for the same.
pub open spec fn starts_with_insensitive(bytes: Seq<u8>, prefix: Seq<u8>) -> bool {
    prefix.len() <= bytes.len() && forall|i: int|
        0 <= i < prefix.len() ==> to_lower(#[trigger] bytes[i]) == to_lower(prefix[i])
}

/// The index of the first `b` in `bytes`, or the length of `bytes` when it
/// has none.
pub open spec fn index_of_byte(bytes: Seq<u8>, b: u8) -> int
    decreases bytes.len(),
{
    if bytes.len() == 0 {
        0
    } else if bytes[0] == b {
        0
    } else {
        1 + index_of_byte(bytes.drop_first(), b)
    }
}

/// The index at which `*/` first stands in `bytes`, or the length of
/// `bytes` when it stands nowhere.
pub open spec fn index_of_comment_end(bytes: Seq<u8>) -> int
    decreases bytes.len(),
{
    if bytes.len() < 2 {
        bytes.len() as int
    } else if bytes[0] == 0x2a && bytes[1] == 0x2f {
        0
    } else {
        1 + index_of_comment_end(bytes.drop_first())
    }
}

/// How many bytes the comment at the front of `bytes` takes; zero when no
/// comment stands there. A comment is `--` up to and with the end of the
/// line, or `/*` up to and with the next `*/`; one that is not ended runs
/// to the end of the bytes.
pub open spec fn comment_len(bytes: Seq<u8>) -> int {
    if bytes.len() < 2 {
        0
    } else if bytes[0] == 0x2d && bytes[1] == 0x2d {
        let k = index_of_byte(bytes, 0x0a);
        if k < bytes.len() {
            k + 1
        } else {
            k
        }
    } else if bytes[0] == 0x2f && bytes[1] == 0x2a {
        let k = index_of_comment_end(bytes);
        if k < bytes.len() {
            k + 2
        } else {
            k
        }
    } else {
        0
    }
}

/// How many bytes of white space stand at the front of `bytes`.
pub open spec fn whitespace_len(bytes: Seq<u8>) -> int
    decreases bytes.len(),
{
    if bytes.len() == 0 || !is_whitespace(bytes[0]) {
        0
    } else {
        1 + whitespace_len(bytes.drop_first())
    }
}

/// How many bytes of white space and comments stand at the front of
/// `bytes`.
pub open spec fn blank_len(bytes: Seq<u8>) -> int
    decreases bytes.len(),
{
    let w = whitespace_len(bytes);
    let c = comment_len(bytes);
    if 0 < w <= bytes.len() {
        w + blank_len(bytes.subrange(w, bytes.len() as int))
    } else if 0 < c <= bytes.len() {
        c + blank_len(bytes.subrange(c, bytes.len() as int))
    } else {
        0
    }
}

/// `index_of_byte` is within the bytes, reaches a `b` unless it ran to the
/// end, and passes no `b` on the way.
pub proof fn lemma_index_of_byte(bytes: Seq<u8>, b: u8)
    ensures
        0 <= index_of_byte(bytes, b) <= bytes.len(),
        index_of_byte(bytes, b) < bytes.len() ==> bytes[index_of_byte(bytes, b)] == b,
        forall|i: int| 0 <= i < index_of_byte(bytes, b) ==> bytes[i] != b,
    decreases bytes.len(),
{
    if bytes.len() == 0 {
    } else if bytes[0] == b {
    } else {
        let t = bytes.drop_first();
        lemma_index_of_byte(t, b);
        assert forall|i: int| 0 <= i < index_of_byte(bytes, b) implies bytes[i] != b by {
            if i > 0 {
                assert(t[i - 1] == bytes[i]);
            }
        }
    }
}

/// An index that reaches a `b` (or the end) and passes none is
/// `index_of_byte`.
pub proof fn lemma_index_of_byte_unique(bytes: Seq<u8>, b: u8, k: int)
    requires
        0 <= k <= bytes.len(),
        k < bytes.len() ==> bytes[k] == b,
        forall|i: int| 0 <= i < k ==> bytes[i] != b,
    ensures
        index_of_byte(bytes, b) == k,
{
    lemma_index_of_byte(bytes, b);
}

/// Whether `*/` stands at index `i` of `bytes`.
pub open spec fn comment_ends_at(bytes: Seq<u8>, i: int) -> bool {
    0 <= i && i + 1 < bytes.len() && bytes[i] == 0x2a && bytes[i + 1] == 0x2f
}

/// An index at which `*/` stands (or the end, if it stands nowhere), with
/// no `*/` before it, is `index_of_comment_end`.
pub proof fn lemma_index_of_comment_end_unique(bytes: Seq<u8>, k: int)
    requires
        0 <= k <= bytes.len(),
        k < bytes.len() ==> comment_ends_at(bytes, k),
        forall|i: int| 0 <= i < k ==> !comment_ends_at(bytes, i),
    ensures
        index_of_comment_end(bytes) == k,
    decreases bytes.len(),
{
    if bytes.len() < 2 {
    } else if bytes[0] == 0x2a && bytes[1] == 0x2f {
        if k > 0 {
            assert(comment_ends_at(bytes, 0));
        }
    } else {
        let t = bytes.drop_first();
        assert forall|i: int| 0 <= i < k - 1 implies !comment_ends_at(t, i) by {
            assert(!comment_ends_at(bytes, i + 1));
        }
        lemma_index_of_comment_end_unique(t, k - 1);
    }
}

/// A count of bytes of white space, with no white space behind them, is
/// `whitespace_len`.
pub proof fn lemma_whitespace_len_unique(bytes: Seq<u8>, k: int)
    requires
        0 <= k <= bytes.len(),
        forall|i: int| 0 <= i < k ==> is_whitespace(#[trigger] bytes[i]),
        k < bytes.len() ==> !is_whitespace(bytes[k]),
    ensures
        whitespace_len(bytes) == k,
    decreases bytes.len(),
{
    if bytes.len() == 0 || !is_whitespace(bytes[0]) {
    } else {
        let t = bytes.drop_first();
        lemma_whitespace_len_unique(t, k - 1);
    }
}

impl Cursor {
    #[verifier::type_invariant]
    spec fn inv(&self) -> bool {
        self.pos <= self.data@.len()
    }

    /// All the bytes of the buffer.
    pub closed spec fn bytes(&self) -> Seq<u8> {
        self.data@
    }

    /// How many bytes have been read.
    pub closed spec fn offset(&self) -> int {
        self.pos as int
    }

    /// A cursor at the front of `data`.
    pub fn new(data: Vec<u8>) -> (r: Cursor)
        ensures
            r.bytes() == data@,
            r.offset() == 0,
    {
        Cursor { data, pos: 0 }
    }

    /// How many bytes have been read.
    pub fn position(&self) -> (r: u64)
        ensures
            r == self.offset(),
            0 <= self.offset() <= self.bytes().len(),
    {
        proof {
            use_type_invariant(self);
        }
        self.pos as u64
    }

    /// How many bytes remain.
    pub fn remaining_len(&self) -> (r: usize)
        ensures
            r == self.bytes().len() - self.offset(),
            0 <= self.offset() <= self.bytes().len(),
    {
        proof {
            use_type_invariant(self);
        }
        self.data.len() - self.pos
    }

    /// The byte that stands `i` bytes after the place of the cursor.
    pub fn byte_at(&self, i: usize) -> (r: u8)
        requires
            self.offset() + i < self.bytes().len(),
        ensures
            r == self.bytes()[self.offset() + i],
            r == self.bytes().subrange(self.offset(), self.bytes().len() as int)[i as int],
    {
        proof {
            use_type_invariant(self);
        }
        let len: usize = self.data.len();
        self.data[self.pos + i]
    }

    /// Passes over the next `n` bytes.
    pub fn consume(&mut self, n: usize)
        requires
            old(self).offset() + n <= old(self).bytes().len(),
        ensures
            final(self).bytes() == old(self).bytes(),
            final(self).offset() == old(self).offset() + n,
    {
        proof {
            use_type_invariant(&*self);
        }
        let len: usize = self.data.len();
        self.pos = self.pos + n;
    }

    /// Reads exactly `n` bytes, or fails and reads none where fewer remain.
    pub fn read_exact(&mut self, n: usize) -> (r: Result<Vec<u8>, ReadError>)
        ensures
            final(self).bytes() == old(self).bytes(),
            0 <= old(self).offset() <= old(self).bytes().len(),
            match r {
                Ok(bytes) => old(self).offset() + n <= old(self).bytes().len() && bytes@ == old(self).bytes().subrange(old(self).offset(), old(self).offset() + n) && final(self).offset() == old(self).offset() + n,
                Err(e) => old(self).offset() + n > old(self).bytes().len() && final(self).offset()
                    == old(self).offset() && e.kind == ReadErrorKind::UnexpectedEof && e.message@
                    == "failed to fill whole buffer"@,
            },
    {
        proof {
            use_type_invariant(&*self);
        }
        if self.data.len() - self.pos < n {
            return Err(
                ReadError {
                    kind: ReadErrorKind::UnexpectedEof,
                    message: String::from_str("failed to fill whole buffer"),
                },
            );
        }
        let mut out: Vec<u8> = Vec::new();
        let start: usize = self.pos;
        let mut i: usize = 0;
        while i < n
            invariant
                i <= n,
                start + n <= self.data@.len(),
                self.data@.len() <= usize::MAX,
                self.pos == start,
                self.data@ == old(self).data@,
                out@ == self.data@.subrange(start as int, start + i),
            decreases n - i,
        {
            out.push(self.data[start + i]);
            i += 1;
        }
        self.pos = start + n;
        Ok(out)
    }
}

/// Passing over bytes at the place of a reader.
pub trait ReadBytesExt: Sized {
    /// The bytes that remain to be read.
    spec fn remaining(&self) -> Seq<u8>;

    /// The next byte as a character, if a byte remains.
    fn peek(&self) -> (r: Option<char>)
        ensures
            r == (if self.remaining().len() == 0 {
                None
            } else {
                Some(self.remaining()[0] as char)
            }),
    ;

    /// The next byte, if a byte remains.
    fn peek_byte(&self) -> (r: Option<u8>)
        ensures
            r == (if self.remaining().len() == 0 {
                None
            } else {
                Some(self.remaining()[0])
            }),
    ;

    /// Passes over the next byte, if one remains and `f` accepts it.
    fn ignore<F: Fn(u8) -> bool>(&mut self, f: F) -> (r: bool)
        requires
            forall|b: u8| f.requires((b,)),
        ensures
            r ==> old(self).remaining().len() > 0 && f.ensures((old(self).remaining()[0],), true)
                && final(self).remaining() == old(self).remaining().drop_first(),
            !r ==> final(self).remaining() == old(self).remaining() && (old(self).remaining().len() > 0 ==> f.ensures((old(self).remaining()[0],), false)),
    ;

    /// Passes over the next bytes as long as `f` accepts them, and tells how
    /// many they were.
    fn ignores<F: Fn(u8) -> bool>(&mut self, f: F) -> (r: usize)
        requires
            forall|b: u8| f.requires((b,)),
        ensures
            accepts_run(f, old(self).remaining(), r as int),
            final(self).remaining() == old(self).remaining().subrange(
                r as int,
                old(self).remaining().len() as int,
            ),
    ;

    /// Passes over the next byte, if it is `b`.
    fn ignore_byte(&mut self, b: u8) -> (r: bool)
        ensures
            r == (old(self).remaining().len() > 0 && old(self).remaining()[0] == b),
            final(self).remaining() == (if r {
                old(self).remaining().drop_first()
            } else {
                old(self).remaining()
            }),
    ;

    /// Passes over the next bytes, if they are `bs`.
    fn ignore_bytes(&mut self, bs: &[u8]) -> (r: bool)
        ensures
            r == starts_with(old(self).remaining(), bs@),
            final(self).remaining() == (if r {
                old(self).remaining().subrange(
                    bs@.len() as int,
                    old(self).remaining().len() as int,
                )
            } else {
                old(self).remaining()
            }),
    ;

    /// Passes over the next bytes, if they are `bs` but for small and
    /// capital letters.
    fn ignore_insensitive_bytes(&mut self, bs: &[u8]) -> (r: bool)
        ensures
            r == starts_with_insensitive(old(self).remaining(), bs@),
            final(self).remaining() == (if r {
                old(self).remaining().subrange(
                    bs@.len() as int,
                    old(self).remaining().len() as int,
                )
            } else {
                old(self).remaining()
            }),
    ;

    /// Passes over white space and comments, and tells whether there were
    /// any.
    fn ignore_white_spaces_or_comments(&mut self) -> (r: bool)
        ensures
            r == (blank_len(old(self).remaining()) > 0),
            0 <= blank_len(old(self).remaining()) <= old(self).remaining().len(),
            final(self).remaining() == old(self).remaining().subrange(
                blank_len(old(self).remaining()),
                old(self).remaining().len() as int,
            ),
    ;

    /// Passes over the comment that stands next, if one does.
    fn ignore_comment(&mut self) -> (r: bool)
        ensures
            r == (comment_len(old(self).remaining()) > 0),
            0 <= comment_len(old(self).remaining()) <= old(self).remaining().len(),
            final(self).remaining() == old(self).remaining().subrange(
                comment_len(old(self).remaining()),
                old(self).remaining().len() as int,
            ),
    ;

    /// Reads up to and with the next `delim` into `buf`, and tells how many
    /// bytes were read. Where no `delim` remains, as many bytes are read as
    /// `buf` held before; they must remain.
    fn until(&mut self, delim: u8, buf: &mut Vec<u8>) -> (r: usize)
        requires
            index_of_byte(old(self).remaining(), delim) == old(self).remaining().len() ==> old(buf)@.len() <= old(self).remaining().len(),
        ensures
            r == (if index_of_byte(old(self).remaining(), delim) < old(self).remaining().len() {
                index_of_byte(old(self).remaining(), delim) + 1
            } else {
                old(buf)@.len() as int
            }),
            final(buf)@ == old(buf)@ + old(self).remaining().subrange(0, r as int),
            final(self).remaining() == old(self).remaining().subrange(
                r as int,
                old(self).remaining().len() as int,
            ),
    ;

    /// Reads the next bytes into `buf` as long as `f` accepts them, and
    /// tells how many they were.
    fn keep_read<F: Fn(u8) -> bool>(&mut self, buf: &mut Vec<u8>, f: F) -> (r: usize)
        requires
            forall|b: u8| f.requires((b,)),
        ensures
            accepts_run(f, old(self).remaining(), r as int),
            final(buf)@ == old(buf)@ + old(self).remaining().subrange(0, r as int),
            final(self).remaining() == old(self).remaining().subrange(
                r as int,
                old(self).remaining().len() as int,
            ),
    ;

    /// Whether no byte remains.
    fn eof(&mut self) -> (r: bool)
        ensures
            r == (old(self).remaining().len() == 0),
            final(self).remaining() == old(self).remaining(),
    ;

    /// Fails where a byte remains.
    fn must_eof(&mut self) -> (r: Result<(), ReadError>)
        ensures
            final(self).remaining() == old(self).remaining(),
            r is Ok == (old(self).remaining().len() == 0),
            r matches Err(e) ==> e.kind == ReadErrorKind::InvalidData && e.message@
                == "Must reach the buffer end"@,
    ;

    /// Passes over the next byte, or fails where none remains or `f`
    /// refuses it.
    fn must_ignore<F: Fn(u8) -> bool>(&mut self, f: F) -> (r: Result<(), ReadError>)
        requires
            forall|b: u8| f.requires((b,)),
        ensures
            r is Ok ==> old(self).remaining().len() > 0 && f.ensures(
                (old(self).remaining()[0],),
                true,
            ) && final(self).remaining() == old(self).remaining().drop_first(),
            r matches Err(e) ==> final(self).remaining() == old(self).remaining() && (old(self).remaining().len() > 0 ==> f.ensures((old(self).remaining()[0],), false)) && e.kind
                == ReadErrorKind::InvalidData && e.message@ == "Expected to ignore a byte"@,
    ;

    /// Passes over the next byte, or fails where it is not `b`.
    fn must_ignore_byte(&mut self, b: u8) -> (r: Result<(), ReadError>)
        ensures
            r is Ok == (old(self).remaining().len() > 0 && old(self).remaining()[0] == b),
            final(self).remaining() == (if r is Ok {
                old(self).remaining().drop_first()
            } else {
                old(self).remaining()
            }),
            r matches Err(e) ==> e.kind == ReadErrorKind::InvalidData && exists|
                found: Seq<char>,
                at: Seq<char>,
            | e.message@ == #[trigger] unexpected_byte_message(b, found, at),
    ;

    /// Passes over the next bytes, or fails where they are not `bs`.
    fn must_ignore_bytes(&mut self, bs: &[u8]) -> (r: Result<(), ReadError>)
        ensures
            r is Ok == starts_with(old(self).remaining(), bs@),
            final(self).remaining() == (if r is Ok {
                old(self).remaining().subrange(
                    bs@.len() as int,
                    old(self).remaining().len() as int,
                )
            } else {
                old(self).remaining()
            }),
            r matches Err(e) ==> e.kind == ReadErrorKind::InvalidData && e.message@
                == "Expected to have bytes "@ + bytes_debug(bs@),
    ;

    /// Passes over the next bytes, or fails where they are not `bs` but for
    /// small and capital letters.
    fn must_ignore_insensitive_bytes(&mut self, bs: &[u8]) -> (r: Result<(), ReadError>)
        ensures
            r is Ok == starts_with_insensitive(old(self).remaining(), bs@),
            final(self).remaining() == (if r is Ok {
                old(self).remaining().subrange(
                    bs@.len() as int,
                    old(self).remaining().len() as int,
                )
            } else {
                old(self).remaining()
            }),
            r matches Err(e) ==> e.kind == ReadErrorKind::InvalidData && e.message@
                == "Expected to have insensitive bytes "@ + bytes_debug(bs@),
    ;
}

/// The numbers of `bytes` with a comma and a space between them.
pub open spec fn bytes_list(bytes: Seq<u8>) -> Seq<char>
    decreases bytes.len(),
{
    if bytes.len() == 0 {
        Seq::empty()
    } else if bytes.len() == 1 {
        crate::text::decimal(bytes[0] as nat)
    } else {
        bytes_list(bytes.drop_last()) + ", "@ + crate::text::decimal(bytes.last() as nat)
    }
}

/// Bytes as a list of numbers in square brackets.
pub open spec fn bytes_debug(bytes: Seq<u8>) -> Seq<char> {
    "["@ + bytes_list(bytes) + "]"@
}

/// The message for a byte that is not the one expected: the byte expected
/// as a character, what was found in its place, and where.
pub open spec fn unexpected_byte_message(expected: u8, found: Seq<char>, at: Seq<char>) -> Seq<
    char,
> {
    "Expected to have char '"@ + seq![expected as char] + "', got '"@ + found + "' at pos "@ + at
}

/// Writes bytes as a list of numbers in square brackets.
pub fn format_bytes(bytes: &[u8]) -> (r: String)
    ensures
        r@ == bytes_debug(bytes@),
{
    let mut r = String::from_str("[");
    let mut i: usize = 0;
    while i < bytes.len()
        invariant
            i <= bytes.len(),
            r@ == "["@ + bytes_list(bytes@.take(i as int)),
        decreases bytes.len() - i,
    {
        proof {
            assert(bytes@.take(i + 1).drop_last() =~= bytes@.take(i as int));
        }
        if i > 0 {
            r.append(", ");
        }
        let number = u64_to_decimal(bytes[i] as u64);
        r.append(number.as_str());
        i += 1;
    }
    assert(bytes@.take(bytes@.len() as int) =~= bytes@);
    r.append("]");
    r
}

} // verus!
