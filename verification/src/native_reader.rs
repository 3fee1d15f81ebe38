//! Reading the pages of a column, one after the other, from a buffer.

use vstd::prelude::*;
use vstd::string::*;
use crate::column_error::Error;
use crate::cursor::{Cursor, ReadBytesExt, ReadError};
use crate::native_meta::PageMeta;

verus! {

/// A source of bytes that pages are read from.
pub trait NativeReadBuf: Sized {
    /// The bytes that remain to be read.
    spec fn unread(&self) -> Seq<u8>;

    /// How many bytes remain to be read.
    fn available(&self) -> (r: usize)
        ensures
            r == self.unread().len(),
    ;

    /// Reads exactly `n` bytes, or fails and reads none where fewer remain.
    fn read_exact(&mut self, n: usize) -> (r: Result<Vec<u8>, ReadError>)
        ensures
            match r {
                Ok(bytes) => n <= old(self).unread().len() && bytes@ == old(self).unread().subrange(
                    0,
                    n as int,
                ) && final(self).unread() == old(self).unread().subrange(
                    n as int,
                    old(self).unread().len() as int,
                ),
                Err(_) => n > old(self).unread().len() && final(self).unread() == old(self).unread(),
            },
    ;

    /// Passes over `n` bytes, or fails and passes over none where fewer
    /// remain.
    fn skip(&mut self, n: usize) -> (r: Result<(), ReadError>)
        ensures
            match r {
                Ok(_) => n <= old(self).unread().len() && final(self).unread() == old(self).unread().subrange(n as int, old(self).unread().len() as int),
                Err(_) => n > old(self).unread().len() && final(self).unread() == old(self).unread(),
            },
    ;
}

impl NativeReadBuf for Cursor {
    open spec fn unread(&self) -> Seq<u8> {
        self.remaining()
    }

    fn available(&self) -> (r: usize) {
        self.remaining_len()
    }

    fn read_exact(&mut self, n: usize) -> (r: Result<Vec<u8>, ReadError>) {
        let r = Cursor::read_exact(self, n);
        r
    }

    fn skip(&mut self, n: usize) -> (r: Result<(), ReadError>) {
        if self.remaining_len() < n {
            return Err(
                ReadError {
                    kind: crate::cursor::ReadErrorKind::UnexpectedEof,
                    message: String::from_str("failed to fill whole buffer"),
                },
            );
        }
        self.consume(n);
        Ok(())
    }
}

/// What is left of `bytes` behind the first `n`: nothing, where they are
/// fewer.
pub open spec fn bytes_past(bytes: Seq<u8>, n: int) -> Seq<u8> {
    if n <= bytes.len() {
        bytes.subrange(n, bytes.len() as int)
    } else {
        Seq::empty()
    }
}

/// The sum of the lengths of the pages from `from` up to `to`.
pub open spec fn pages_length(pages: Seq<PageMeta>, from: int, to: int) -> int
    decreases to - from,
{
    if to <= from {
        0
    } else {
        pages_length(pages, from, to - 1) + pages[to - 1].length
    }
}

/// Reads the pages of a column one after the other.
pub struct NativeReader<R: NativeReadBuf> {
    page_reader: R,
    page_metas: Vec<PageMeta>,
    current_page: usize,
    scratch: Vec<u8>,
}

impl<R: NativeReadBuf> NativeReader<R> {
    /// The page that is read next is one of the pages, or the end of them.
    pub closed spec fn wf(&self) -> bool {
        self.current_page <= self.page_metas@.len()
    }

    /// The descriptions of the pages.
    pub closed spec fn pages(&self) -> Seq<PageMeta> {
        self.page_metas@
    }

    /// The number of the page that is read next.
    pub closed spec fn page(&self) -> int {
        self.current_page as int
    }

    /// The bytes that remain to be read.
    pub closed spec fn unread(&self) -> Seq<u8> {
        self.page_reader.unread()
    }

    /// The buffer that is kept for reuse.
    pub closed spec fn scratch_view(&self) -> Seq<u8> {
        self.scratch@
    }

    /// Creates a new [`NativeReader`]
    pub fn new(page_reader: R, page_metas: Vec<PageMeta>, scratch: Vec<u8>) -> (r: Self)
        ensures
            r.wf(),
            r.pages() == page_metas@,
            r.page() == 0,
            r.unread() == page_reader.unread(),
            r.scratch_view() == scratch@,
    {
        Self { page_reader, page_metas, current_page: 0, scratch }
    }

    /// Check whether there is more data to read,
    /// returns true, if current page is not the last one, false otherwise
    pub fn has_next(&self) -> (r: bool)
        requires
            self.wf(),
        ensures
            r == (self.page() < self.pages().len()),
            0 <= self.page() <= self.pages().len(),
    {
        self.current_page < self.page_metas.len()
    }

    /// Returns current page number
    pub fn current_page(&self) -> (r: usize)
        requires
            self.wf(),
        ensures
            r == self.page(),
            0 <= self.page() <= self.pages().len(),
    {
        self.current_page
    }

    /// Gives the reader the buffer `scratch` to keep, and takes the one
    /// that it kept.
    pub fn swap_buffer(&mut self, scratch: &mut Vec<u8>)
        requires
            old(self).wf(),
        ensures
            final(self).wf(),
            final(self).scratch_view() == old(scratch)@,
            final(scratch)@ == old(self).scratch_view(),
            final(self).pages() == old(self).pages(),
            final(self).page() == old(self).page(),
            final(self).unread() == old(self).unread(),
    {
        std::mem::swap(&mut self.scratch, scratch)
    }

    /// How many pages remain, as the least and the greatest possible number.
    pub fn size_hint(&self) -> (r: (usize, Option<usize>))
        requires
            self.wf(),
        ensures
            r.0 == self.pages().len() - self.page(),
            r.1 == Some(r.0),
    {
        let remaining: usize = self.page_metas.len() - self.current_page;
        (remaining, Some(remaining))
    }

    /// Reads the next page of data: the number of its values and its bytes.
    /// `None` after the last page. Where the bytes end before the page
    /// does, the read fails and the page stays the next one.
    pub fn next(&mut self) -> (r: Option<Result<(u64, Vec<u8>), Error>>)
        requires
            old(self).wf(),
        ensures
            final(self).wf(),
            final(self).pages() == old(self).pages(),
            0 <= old(self).page() <= old(self).pages().len(),
            match r {
                None => old(self).page() == old(self).pages().len() && final(self).page() == old(self).page() && final(self).unread() == old(self).unread(),
                Some(Ok((num_values, bytes))) => {
                    let meta = old(self).pages()[old(self).page()];
                    &&& old(self).page() < old(self).pages().len()
                    &&& meta.length <= old(self).unread().len()
                    &&& num_values == meta.num_values
                    &&& bytes@ == old(self).unread().subrange(0, meta.length as int)
                    &&& final(self).unread() == old(self).unread().subrange(
                        meta.length as int,
                        old(self).unread().len() as int,
                    )
                    &&& final(self).page() == old(self).page() + 1
                },
                Some(Err(e)) => {
                    &&& old(self).page() < old(self).pages().len()
                    &&& old(self).pages()[old(self).page()].length > old(self).unread().len()
                    &&& final(self).unread() == old(self).unread()
                    &&& final(self).page() == old(self).page()
                    &&& e is Io
                },
            },
    {
        if self.current_page == self.page_metas.len() {
            return None;
        }
        self.scratch = Vec::new();
        let page_meta = self.page_metas[self.current_page];
        if page_meta.length > self.page_reader.available() as u64 {
            return Some(Err(Error::Io(String::from_str("failed to fill whole buffer"))));
        }
        match self.page_reader.read_exact(page_meta.length as usize) {
            Err(e) => Some(Err(Error::Io(e.message))),
            Ok(buffer) => {
                self.current_page = self.current_page + 1;
                Some(Ok((page_meta.num_values, buffer)))
            },
        }
    }

    /// Reads the next nth page of data, skipping the intermediate pages.
    /// `None` where fewer than `n` pages were left to skip or none is left
    /// to read; the pages skipped stay skipped. Pages that reach beyond the
    /// bytes are skipped all the same, and nothing is then left to read.
    pub fn nth(&mut self, n: usize) -> (r: Option<Result<(u64, Vec<u8>), Error>>)
        requires
            old(self).wf(),
        ensures
            final(self).wf(),
            final(self).pages() == old(self).pages(),
            0 <= old(self).page() <= old(self).pages().len(),
            old(self).page() + n > old(self).pages().len() ==> r is None && final(self).page()
                == old(self).pages().len() && final(self).unread() == old(self).unread(),
            old(self).page() + n <= old(self).pages().len() ==> {
                let skipped = pages_length(
                    old(self).pages(),
                    old(self).page(),
                    old(self).page() + n,
                );
                let rest = bytes_past(old(self).unread(), skipped);
                if old(self).page() + n == old(self).pages().len() {
                    r is None && final(self).page() == old(self).page() + n && final(self).unread()
                        == rest
                } else {
                    let meta = old(self).pages()[old(self).page() + n];
                    match r {
                        Some(Ok((num_values, bytes))) => {
                            &&& meta.length <= rest.len()
                            &&& num_values == meta.num_values
                            &&& bytes@ == rest.subrange(0, meta.length as int)
                            &&& final(self).unread() == rest.subrange(
                                meta.length as int,
                                rest.len() as int,
                            )
                            &&& final(self).page() == old(self).page() + n + 1
                        },
                        Some(Err(_)) => meta.length > rest.len() && final(self).unread() == rest
                            && final(self).page() == old(self).page() + n,
                        None => false,
                    }
                }
            },
    {
        let start: usize = self.current_page;
        let mut i: usize = 0;
        let mut length: u128 = 0;
        while i < n && self.current_page < self.page_metas.len()
            invariant
                i <= n,
                start + i == self.current_page,
                self.current_page <= self.page_metas@.len(),
                self.page_metas@ == old(self).page_metas@,
                self.page_reader == old(self).page_reader,
                length == pages_length(self.page_metas@, start as int, start + i),
                length <= i * 0xffff_ffff_ffff_ffff,
            decreases n - i,
        {
            let page_meta = self.page_metas[self.current_page];
            assert((i + 1) * 0xffff_ffff_ffff_ffff == i * 0xffff_ffff_ffff_ffff
                + 0xffff_ffff_ffff_ffff) by (nonlinear_arith);
            assert(i * 0xffff_ffff_ffff_ffff <= 0xffff_ffff_ffff_ffff * 0xffff_ffff_ffff_ffff)
                by (nonlinear_arith)
                requires
                    i <= 0xffff_ffff_ffff_ffff,
            ;
            length = length + page_meta.length as u128;
            i += 1;
            self.current_page = self.current_page + 1;
        }
        if i < n {
            return None;
        }
        if length > 0 {
            let left: usize = self.page_reader.available();
            let over: usize = if length > left as u128 {
                left
            } else {
                length as usize
            };
            proof {
                let unread = self.page_reader.unread();
                assert(unread.subrange(left as int, unread.len() as int) =~= Seq::empty());
            }
            match self.page_reader.skip(over) {
                Err(e) => {
                    return Some(Err(Error::Io(e.message)));
                },
                Ok(_) => {},
            }
        } else {
            proof {
                let unread = self.page_reader.unread();
                assert(unread.subrange(0, unread.len() as int) =~= unread);
            }
        }
        self.next()
    }

    /// Skips the next page. After the last page nothing is done. A page
    /// that reaches beyond the bytes is skipped all the same, and nothing
    /// is then left to read.
    pub fn skip_page(&mut self) -> (r: Result<(), Error>)
        requires
            old(self).wf(),
        ensures
            final(self).wf(),
            final(self).pages() == old(self).pages(),
            0 <= old(self).page() <= old(self).pages().len(),
            r is Ok,
            old(self).page() == old(self).pages().len() ==> final(self).page() == old(self).page()
                && final(self).unread() == old(self).unread(),
            old(self).page() < old(self).pages().len() ==> final(self).page() == old(self).page()
                + 1 && final(self).unread() == bytes_past(
                old(self).unread(),
                old(self).pages()[old(self).page()].length as int,
            ),
    {
        if self.current_page == self.page_metas.len() {
            return Ok(());
        }
        let page_meta = self.page_metas[self.current_page];
        let left: usize = self.page_reader.available();
        let over: usize = if page_meta.length > left as u64 {
            left
        } else {
            page_meta.length as usize
        };
        proof {
            let unread = self.page_reader.unread();
            assert(unread.subrange(left as int, unread.len() as int) =~= Seq::empty());
        }
        match self.page_reader.skip(over) {
            Err(e) => Err(Error::Io(e.message)),
            Ok(_) => {
                self.current_page = self.current_page + 1;
                Ok(())
            },
        }
    }
}

} // verus!
