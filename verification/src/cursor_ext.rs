//! How a `Cursor` passes over bytes.

use vstd::prelude::*;
use vstd::string::*;
use crate::cursor::{
    accepts_run, blank_len, comment_ends_at, comment_len, eq_ignore_ascii_case, format_bytes,
    index_of_byte, index_of_comment_end, is_ascii_whitespace, is_whitespace,
    lemma_index_of_byte, lemma_index_of_byte_unique, lemma_index_of_comment_end_unique,
    lemma_whitespace_len_unique, starts_with, starts_with_insensitive, to_lower,
    unexpected_byte_message, whitespace_len, Cursor, ReadBytesExt, ReadError, ReadErrorKind,
};

verus! {

/// `char::to_string`: the text of the one character.
#[verifier::external_body]
fn char_text(c: char) -> (text: String)
    ensures
        text@ == seq![c],
{
    c.to_string()
}

/// What stands in place of an expected byte, as the standard formatter
/// writes it for debugging. Nothing is claimed of the text.
#[verifier::external_body]
fn debug_char(got: Option<char>) -> (text: String) {
    format!("{:?}", got)
}

/// The message for a byte that is not the one expected: the byte expected
/// as a character, what stands there instead, and the place.
fn unexpected_char_message(expected: u8, got: Option<char>, position: u64) -> (message: String)
    ensures
        exists|found: Seq<char>|
            message@ == #[trigger] unexpected_byte_message(
                expected,
                found,
                crate::text::decimal(position as nat),
            ),
{
    let found = debug_char(got);
    let mut message = String::from_str("Expected to have char '");
    message.append(char_text(expected as char).as_str());
    message.append("', got '");
    message.append(found.as_str());
    message.append("' at pos ");
    message.append(crate::text::u64_to_decimal(position).as_str());
    assert(message@ == unexpected_byte_message(
        expected,
        found@,
        crate::text::decimal(position as nat),
    ));
    message
}

/// The white space and comments at the front of some bytes are no more
/// than the bytes.
pub proof fn lemma_blank_len_bound(bytes: Seq<u8>)
    ensures
        0 <= blank_len(bytes) <= bytes.len(),
    decreases bytes.len(),
{
    let w = whitespace_len(bytes);
    let c = comment_len(bytes);
    if 0 < w <= bytes.len() {
        lemma_blank_len_bound(bytes.subrange(w, bytes.len() as int));
    } else if 0 < c <= bytes.len() {
        lemma_blank_len_bound(bytes.subrange(c, bytes.len() as int));
    }
}

/// A comment at the front of some bytes is no longer than the bytes.
pub proof fn lemma_comment_len_bound(bytes: Seq<u8>)
    ensures
        0 <= comment_len(bytes) <= bytes.len(),
        comment_len(bytes) > 0 ==> comment_len(bytes) >= 2,
{
    lemma_index_of_byte(bytes, 0x0a);
    lemma_index_of_comment_end_bound(bytes);
}

/// Where `*/` first stands is within the bytes, and `*/` stands there unless
/// it is the end.
pub proof fn lemma_index_of_comment_end_bound(bytes: Seq<u8>)
    ensures
        0 <= index_of_comment_end(bytes) <= bytes.len(),
        index_of_comment_end(bytes) < bytes.len() ==> comment_ends_at(
            bytes,
            index_of_comment_end(bytes),
        ),
    decreases bytes.len(),
{
    if bytes.len() < 2 {
    } else if bytes[0] == 0x2a && bytes[1] == 0x2f {
    } else {
        let t = bytes.drop_first();
        lemma_index_of_comment_end_bound(t);
    }
}

impl ReadBytesExt for Cursor {
    open spec fn remaining(&self) -> Seq<u8> {
        self.bytes().subrange(self.offset(), self.bytes().len() as int)
    }

    fn peek(&self) -> (r: Option<char>) {
        if self.remaining_len() == 0 {
            None
        } else {
            Some(self.byte_at(0) as char)
        }
    }

    fn peek_byte(&self) -> (r: Option<u8>) {
        if self.remaining_len() == 0 {
            None
        } else {
            Some(self.byte_at(0))
        }
    }

    fn eof(&mut self) -> (r: bool) {
        self.remaining_len() == 0
    }

    fn must_eof(&mut self) -> (r: Result<(), ReadError>) {
        if self.remaining_len() != 0 {
            return Err(
                ReadError {
                    kind: ReadErrorKind::InvalidData,
                    message: String::from_str("Must reach the buffer end"),
                },
            );
        }
        Ok(())
    }

    fn ignore<F: Fn(u8) -> bool>(&mut self, f: F) -> (r: bool) {
        if self.remaining_len() == 0 {
            false
        } else if f(self.byte_at(0)) {
            self.consume(1);
            true
        } else {
            false
        }
    }

    fn ignores<F: Fn(u8) -> bool>(&mut self, f: F) -> (r: usize) {
        let n: usize = self.remaining_len();
        let ghost rem = self.remaining();
        let ghost all = self.bytes();
        let ghost start = self.offset();
        let mut index: usize = 0;
        while index < n
            invariant
                index <= n,
                n == rem.len(),
                rem == self.remaining(),
                rem == old(self).remaining(),
                all == self.bytes(),
                start == self.offset(),
                0 <= start,
                start + n == all.len(),
                forall|b: u8| f.requires((b,)),
                forall|i: int| 0 <= i < index ==> f.ensures((#[trigger] rem[i],), true),
            decreases n - index,
        {
            if !f(self.byte_at(index)) {
                self.consume(index);
                return index;
            }
            index += 1;
        }
        self.consume(n);
        n
    }

    fn ignore_byte(&mut self, b: u8) -> (r: bool) {
        if self.remaining_len() > 0 && self.byte_at(0) == b {
            self.consume(1);
            true
        } else {
            false
        }
    }

    fn ignore_bytes(&mut self, bs: &[u8]) -> (r: bool) {
        let len: usize = bs.len();
        if self.remaining_len() < len {
            return false;
        }
        let mut i: usize = 0;
        while i < len
            invariant
                i <= len,
                len == bs@.len(),
                len <= self.remaining().len(),
                self.offset() + self.remaining().len() == self.bytes().len(),
                *self == *old(self),
                forall|j: int| 0 <= j < i ==> self.remaining()[j] == bs@[j],
            decreases len - i,
        {
            if self.byte_at(i) != bs[i] {
                return false;
            }
            i += 1;
        }
        assert(self.remaining().subrange(0, len as int) =~= bs@);
        self.consume(len);
        true
    }

    fn must_ignore_byte(&mut self, b: u8) -> (r: Result<(), ReadError>) {
        if !self.ignore_byte(b) {
            return Err(
                ReadError {
                    kind: ReadErrorKind::InvalidData,
                    message: unexpected_char_message(b, self.peek(), self.position()),
                },
            );
        }
        Ok(())
    }

    fn ignore_insensitive_bytes(&mut self, bs: &[u8]) -> (r: bool) {
        let len: usize = bs.len();
        if self.remaining_len() < len {
            return false;
        }
        let mut i: usize = 0;
        while i < len
            invariant
                i <= len,
                len == bs@.len(),
                len <= self.remaining().len(),
                self.offset() + self.remaining().len() == self.bytes().len(),
                *self == *old(self),
                forall|j: int|
                    0 <= j < i ==> to_lower(#[trigger] self.remaining()[j]) == to_lower(bs@[j]),
            decreases len - i,
        {
            if !eq_ignore_ascii_case(self.byte_at(i), bs[i]) {
                return false;
            }
            i += 1;
        }
        self.consume(len);
        true
    }

    fn ignore_white_spaces_or_comments(&mut self) -> (r: bool) {
        let mut ignored: bool = false;
        let ghost start = self.remaining();
        let ghost mut done: int = 0;
        proof {
            lemma_blank_len_bound(start);
        }
        loop
            invariant
                0 <= done <= start.len(),
                start == old(self).remaining(),
                self.remaining() == start.subrange(done, start.len() as int),
                blank_len(start) == done + blank_len(self.remaining()),
                ignored == (done > 0),
            decreases self.remaining().len(),
        {
            let ghost here = self.remaining();
            let w = self.ignores(is_ascii_whitespace);
            proof {
                lemma_whitespace_len_unique(here, w as int);
            }
            if w > 0 {
                ignored = true;
                proof {
                    done = done + w;
                }
            } else {
                proof {
                    assert(self.remaining() =~= here);
                    lemma_comment_len_bound(here);
                }
                if self.ignore_comment() {
                    ignored = true;
                    proof {
                        let c = comment_len(here);
                        done = done + c;
                    }
                } else {
                    proof {
                        lemma_blank_len_bound(start);
                        assert(self.remaining() =~= old(self).remaining().subrange(
                            blank_len(start),
                            start.len() as int,
                        ));
                    }
                    return ignored;
                }
            }
        }
    }

    fn ignore_comment(&mut self) -> (r: bool) {
        let n: usize = self.remaining_len();
        let ghost rem = self.remaining();
        proof {
            lemma_comment_len_bound(rem);
        }
        if n < 2 {
            return false;
        }
        let first: u8 = self.byte_at(0);
        let second: u8 = self.byte_at(1);
        if first == 0x2d && second == 0x2d {
            let mut k: usize = 0;
            while k < n && self.byte_at(k) != 0x0a
                invariant
                    k <= n,
                    n == rem.len(),
                    rem == self.remaining(),
                    self.offset() + n == self.bytes().len(),
                    *self == *old(self),
                    forall|i: int| 0 <= i < k ==> rem[i] != 0x0a,
                decreases n - k,
            {
                k += 1;
            }
            proof {
                lemma_index_of_byte_unique(rem, 0x0a, k as int);
            }
            let to_read: usize = if k < n {
                k + 1
            } else {
                n
            };
            self.consume(to_read);
            true
        } else if first == 0x2f && second == 0x2a {
            let mut k: usize = 0;
            while k + 1 < n && !(self.byte_at(k) == 0x2a && self.byte_at(k + 1) == 0x2f)
                invariant
                    k + 1 <= n,
                    n == rem.len(),
                    rem == self.remaining(),
                    self.offset() + n == self.bytes().len(),
                    *self == *old(self),
                    forall|i: int| 0 <= i < k ==> !comment_ends_at(rem, i),
                decreases n - k,
            {
                k += 1;
            }
            let to_read: usize = if k + 1 < n {
                k + 2
            } else {
                n
            };
            proof {
                if k + 1 < n {
                    lemma_index_of_comment_end_unique(rem, k as int);
                } else {
                    lemma_index_of_comment_end_unique(rem, n as int);
                }
            }
            self.consume(to_read);
            true
        } else {
            false
        }
    }

    fn until(&mut self, delim: u8, buf: &mut Vec<u8>) -> (r: usize) {
        let n: usize = self.remaining_len();
        let ghost rem = self.remaining();
        let mut k: usize = 0;
        while k < n && self.byte_at(k) != delim
            invariant
                k <= n,
                n == rem.len(),
                rem == self.remaining(),
                self.offset() + n == self.bytes().len(),
                *self == *old(self),
                forall|i: int| 0 <= i < k ==> rem[i] != delim,
            decreases n - k,
        {
            k += 1;
        }
        proof {
            lemma_index_of_byte_unique(rem, delim, k as int);
        }
        let to_read: usize = if k < n {
            k + 1
        } else {
            buf.len()
        };
        let mut i: usize = 0;
        while i < to_read
            invariant
                i <= to_read <= n,
                n == rem.len(),
                rem == self.remaining(),
                self.offset() + n == self.bytes().len(),
                *self == *old(self),
                buf@ == old(buf)@ + rem.subrange(0, i as int),
            decreases to_read - i,
        {
            buf.push(self.byte_at(i));
            i += 1;
        }
        self.consume(to_read);
        to_read
    }

    fn keep_read<F: Fn(u8) -> bool>(&mut self, buf: &mut Vec<u8>, f: F) -> (r: usize) {
        let n: usize = self.remaining_len();
        let ghost rem = self.remaining();
        let mut to_read: usize = 0;
        let mut refused: bool = false;
        while to_read < n && !refused
            invariant
                to_read <= n,
                n == rem.len(),
                rem == self.remaining(),
                self.offset() + n == self.bytes().len(),
                *self == *old(self),
                forall|b: u8| f.requires((b,)),
                forall|i: int| 0 <= i < to_read ==> f.ensures((#[trigger] rem[i],), true),
                refused ==> to_read < n && f.ensures((rem[to_read as int],), false),
                buf@ == old(buf)@ + rem.subrange(0, to_read as int),
            decreases n - to_read + (if refused { 0int } else { 1int }),
        {
            let b: u8 = self.byte_at(to_read);
            if !f(b) {
                refused = true;
            } else {
                buf.push(b);
                to_read += 1;
            }
        }
        self.consume(to_read);
        to_read
    }

    fn must_ignore<F: Fn(u8) -> bool>(&mut self, f: F) -> (r: Result<(), ReadError>) {
        if !self.ignore(f) {
            return Err(
                ReadError {
                    kind: ReadErrorKind::InvalidData,
                    message: String::from_str("Expected to ignore a byte"),
                },
            );
        }
        Ok(())
    }

    fn must_ignore_bytes(&mut self, bs: &[u8]) -> (r: Result<(), ReadError>) {
        if !self.ignore_bytes(bs) {
            let mut message = String::from_str("Expected to have bytes ");
            message.append(format_bytes(bs).as_str());
            return Err(ReadError { kind: ReadErrorKind::InvalidData, message });
        }
        Ok(())
    }

    fn must_ignore_insensitive_bytes(&mut self, bs: &[u8]) -> (r: Result<(), ReadError>) {
        if !self.ignore_insensitive_bytes(bs) {
            let mut message = String::from_str("Expected to have insensitive bytes ");
            message.append(format_bytes(bs).as_str());
            return Err(ReadError { kind: ReadErrorKind::InvalidData, message });
        }
        Ok(())
    }
}

} // verus!
