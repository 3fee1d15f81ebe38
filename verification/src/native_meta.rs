//! The footer of a native file: where it lies, and the column and page
//! descriptions that it holds.

use vstd::prelude::*;
use vstd::string::*;
use crate::column_error::Error;

verus! {

/// What the footer tells of a page: how many bytes it takes and how many
/// values it holds.
#[derive(Debug, Clone, Copy, PartialEq, Eq, Structural)]
pub struct PageMeta {
    pub length: u64,
    pub num_values: u64,
}

/// What the footer tells of a column: where it starts, and its pages.
#[derive(Debug, Clone, PartialEq, Eq)]
pub struct ColumnMeta {
    pub offset: u64,
    pub pages: Vec<PageMeta>,
}

/// A column description with its pages as a sequence.
pub struct ColumnMetaView {
    pub offset: u64,
    pub pages: Seq<PageMeta>,
}

impl View for ColumnMeta {
    type V = ColumnMetaView;

    open spec fn view(&self) -> ColumnMetaView {
        ColumnMetaView { offset: self.offset, pages: self.pages@ }
    }
}

/// The column descriptions, each with its pages as a sequence.
pub open spec fn columns_view(columns: Seq<ColumnMeta>) -> Seq<ColumnMetaView> {
    Seq::new(columns.len(), |i: int| columns[i]@)
}

/// The number whose eight bytes, the least significant first, stand at
/// `at`.
pub open spec fn u64_le_at(bytes: Seq<u8>, at: int) -> u64 {
    (bytes[at] as u64) | ((bytes[at + 1] as u64) << 8) | ((bytes[at + 2] as u64) << 16) | ((
    bytes[at + 3] as u64) << 24) | ((bytes[at + 4] as u64) << 32) | ((bytes[at + 5] as u64) << 40)
        | ((bytes[at + 6] as u64) << 48) | ((bytes[at + 7] as u64) << 56)
}

/// The number whose four bytes, the least significant first, stand at
/// `at`.
pub open spec fn u32_le_at(bytes: Seq<u8>, at: int) -> u32 {
    (bytes[at] as u32) | ((bytes[at + 1] as u32) << 8) | ((bytes[at + 2] as u32) << 16) | ((
    bytes[at + 3] as u32) << 24)
}

/// Reads the number whose eight bytes stand at `at`.
pub fn read_u64_at(bytes: &[u8], at: usize) -> (r: u64)
    requires
        at + 8 <= bytes@.len(),
    ensures
        r == u64_le_at(bytes@, at as int),
{
    (bytes[at] as u64) | ((bytes[at + 1] as u64) << 8) | ((bytes[at + 2] as u64) << 16) | ((
    bytes[at + 3] as u64) << 24) | ((bytes[at + 4] as u64) << 32) | ((bytes[at + 5] as u64) << 40)
        | ((bytes[at + 6] as u64) << 48) | ((bytes[at + 7] as u64) << 56)
}

/// Reads the number whose four bytes stand at `at`.
pub fn read_u32_at(bytes: &[u8], at: usize) -> (r: u32)
    requires
        at + 4 <= bytes@.len(),
    ensures
        r == u32_le_at(bytes@, at as int),
{
    (bytes[at] as u32) | ((bytes[at + 1] as u32) << 8) | ((bytes[at + 2] as u32) << 16) | ((
    bytes[at + 3] as u32) << 24)
}

/// The page description that stands at `at`.
pub open spec fn page_at(bytes: Seq<u8>, at: int) -> PageMeta {
    PageMeta { length: u64_le_at(bytes, at), num_values: u64_le_at(bytes, at + 8) }
}

/// Whether a whole column description stands at `at`: its offset, the
/// number of its pages, and that many page descriptions.
pub open spec fn column_fits(bytes: Seq<u8>, at: int) -> bool {
    at + 16 <= bytes.len() && at + 16 + 16 * u64_le_at(bytes, at + 8) <= bytes.len()
}

/// The column description that stands at `at`.
pub open spec fn column_at(bytes: Seq<u8>, at: int) -> ColumnMetaView {
    ColumnMetaView {
        offset: u64_le_at(bytes, at),
        pages: Seq::new(
            u64_le_at(bytes, at + 8) as nat,
            |k: int| page_at(bytes, at + 16 + 16 * k),
        ),
    }
}

/// Where the column description that stands at `at` ends.
pub open spec fn column_end(bytes: Seq<u8>, at: int) -> int {
    at + 16 + 16 * u64_le_at(bytes, at + 8)
}

/// The `count` column descriptions that stand one after the other from
/// `at` on, or `None` where the bytes end before the last of them does.
pub open spec fn columns_at(bytes: Seq<u8>, at: int, count: nat) -> Option<Seq<ColumnMetaView>>
    decreases count,
{
    if count == 0 {
        Some(Seq::empty())
    } else if !column_fits(bytes, at) {
        None
    } else {
        match columns_at(bytes, column_end(bytes, at), (count - 1) as nat) {
            Some(rest) => Some(seq![column_at(bytes, at)] + rest),
            None => None,
        }
    }
}

/// The column descriptions of a footer: their number, then each of them.
/// `None` where the bytes end too early.
pub open spec fn footer_columns(bytes: Seq<u8>) -> Option<Seq<ColumnMetaView>> {
    if bytes.len() < 8 {
        None
    } else {
        columns_at(bytes, 8, u64_le_at(bytes, 0) as nat)
    }
}

/// The error of a footer that ends too early.
fn unexpected_end() -> (e: Error)
    ensures
        e matches Error::Io(m) && m@ == "failed to fill whole buffer"@,
{
    Error::Io(String::from_str("failed to fill whole buffer"))
}

/// What reading `columns_at` from `at` gives, with `done` put in front.
spec fn columns_from(
    done: Seq<ColumnMetaView>,
    bytes: Seq<u8>,
    at: int,
    count: nat,
) -> Option<Seq<ColumnMetaView>> {
    match columns_at(bytes, at, count) {
        Some(rest) => Some(done + rest),
        None => None,
    }
}

/// Reads the column descriptions of a footer.
///
/// The footer holds the number of columns and then, for each column, its
/// offset, the number of its pages, and for each page its length and the
/// number of its values, every number in eight bytes with the least
/// significant first. Bytes behind the last description are left alone. A
/// footer that ends before the last description does is refused.
pub fn deserialize_meta(buf: Vec<u8>) -> (r: Result<Vec<ColumnMeta>, Error>)
    ensures
        match r {
            Ok(columns) => footer_columns(buf@) == Some(columns_view(columns@)),
            Err(e) => footer_columns(buf@) is None && (e matches Error::Io(m) && m@
                == "failed to fill whole buffer"@),
        },
{
    let bytes = buf.as_slice();
    let n: usize = bytes.len();
    if n < 8 {
        return Err(unexpected_end());
    }
    let meta_len: u64 = read_u64_at(bytes, 0);
    let mut metas: Vec<ColumnMeta> = Vec::new();
    let mut at: usize = 8;
    let mut i: u64 = 0;
    proof {
        assert(columns_view(metas@) + columns_at(bytes@, 8, meta_len as nat).unwrap() =~= columns_at(
            bytes@,
            8,
            meta_len as nat,
        ).unwrap());
    }
    while i < meta_len
        invariant
            i <= meta_len,
            8 <= at <= n,
            n == bytes@.len(),
            bytes@ == buf@,
            meta_len == u64_le_at(bytes@, 0),
            columns_from(columns_view(metas@), bytes@, at as int, (meta_len - i) as nat)
                == footer_columns(bytes@),
        decreases meta_len - i,
    {
        if n - at < 16 {
            return Err(unexpected_end());
        }
        let offset: u64 = read_u64_at(bytes, at);
        let page_num: u64 = read_u64_at(bytes, at + 8);
        let room: usize = (n - at - 16) / 16;
        if page_num > room as u64 {
            return Err(unexpected_end());
        }
        let start: usize = at + 16;
        let mut pages: Vec<PageMeta> = Vec::new();
        let mut p: usize = 0;
        while p < page_num as usize
            invariant
                p <= page_num,
                page_num <= room,
                room == (n - at - 16) / 16,
                at + 16 <= n,
                start == at + 16,
                n == bytes@.len(),
                pages@.len() == p,
                forall|k: int| 0 <= k < p ==> pages@[k] == page_at(bytes@, start + 16 * k),
            decreases page_num - p,
        {
            let length: u64 = read_u64_at(bytes, start + 16 * p);
            let num_values: u64 = read_u64_at(bytes, start + 16 * p + 8);
            pages.push(PageMeta { length, num_values });
            p += 1;
        }
        let ghost before = columns_view(metas@);
        let ghost column = column_at(bytes@, at as int);
        assert(pages@ =~= column.pages);
        metas.push(ColumnMeta { offset, pages });
        proof {
            let rest = columns_at(
                bytes@,
                column_end(bytes@, at as int),
                (meta_len - i - 1) as nat,
            );
            if rest is Some {
                assert(before + (seq![column] + rest.unwrap()) =~= before.push(column)
                    + rest.unwrap());
            }
        }
        at = start + 16 * (page_num as usize);
        i += 1;
    }
    Ok(metas)
}

/// How many bytes stand behind the column descriptions of a file: the sizes
/// of schema and descriptions, four bytes each, and the end mark of eight.
pub const FOOTER_SIZE: usize = 16;

/// How many bytes from the end of a file are read first, in the hope that
/// they hold the whole footer.
pub const DEFAULT_FOOTER_SIZE: u64 = 65536;

/// The size of the schema, as the file tells it.
pub open spec fn schema_size_of(file: Seq<u8>) -> int {
    u32_le_at(file, file.len() - 16) as int
}

/// The size of the column descriptions, as the file tells it.
pub open spec fn meta_size_of(file: Seq<u8>) -> int {
    u32_le_at(file, file.len() - 12) as int
}

/// The bytes of the column descriptions of a file: they end sixteen bytes
/// before the end of the file.
pub open spec fn meta_bytes_of(file: Seq<u8>) -> Seq<u8> {
    file.subrange(file.len() - 16 - meta_size_of(file), file.len() - 16)
}

/// The bytes of the schema of a file: they end where the column
/// descriptions begin.
pub open spec fn schema_bytes_of(file: Seq<u8>) -> Seq<u8> {
    file.subrange(
        file.len() - 16 - meta_size_of(file) - schema_size_of(file),
        file.len() - 16 - meta_size_of(file),
    )
}

/// A copy of the bytes of `bytes` from `from` up to `to`.
fn copy_range(bytes: &[u8], from: usize, to: usize) -> (r: Vec<u8>)
    requires
        from <= to <= bytes@.len(),
    ensures
        r@ == bytes@.subrange(from as int, to as int),
{
    let mut r: Vec<u8> = Vec::new();
    let mut i: usize = from;
    while i < to
        invariant
            from <= i <= to,
            to <= bytes@.len(),
            r@ == bytes@.subrange(from as int, i as int),
        decreases to - i,
    {
        r.push(bytes[i]);
        i += 1;
    }
    r
}

/// Reads the column descriptions of a file from its end. A file too short
/// for what it says of itself is refused.
pub fn read_meta(file: &[u8]) -> (r: Result<Vec<ColumnMeta>, Error>)
    ensures
        match r {
            Ok(columns) => file@.len() >= 16 + meta_size_of(file@) && footer_columns(
                meta_bytes_of(file@),
            ) == Some(columns_view(columns@)),
            Err(_) => file@.len() < 16 + meta_size_of(file@) || footer_columns(
                meta_bytes_of(file@),
            ) is None,
        },
{
    let n: usize = file.len();
    if n < FOOTER_SIZE {
        return Err(unexpected_end());
    }
    let meta_size: usize = read_u32_at(file, n - 12) as usize;
    if n - FOOTER_SIZE < meta_size {
        return Err(unexpected_end());
    }
    let meta_buf = copy_range(file, n - FOOTER_SIZE - meta_size, n - FOOTER_SIZE);
    deserialize_meta(meta_buf)
}

/// Reads the bytes of the schema of a file from its end, to be parsed by
/// the caller. A file too short for what it says of itself is refused.
pub fn read_schema_bytes(file: &[u8]) -> (r: Result<Vec<u8>, Error>)
    ensures
        match r {
            Ok(bytes) => file@.len() >= 16 + meta_size_of(file@) + schema_size_of(file@)
                && bytes@ == schema_bytes_of(file@),
            Err(_) => file@.len() < 16 + meta_size_of(file@) + schema_size_of(file@),
        },
{
    let n: usize = file.len();
    if n < FOOTER_SIZE {
        return Err(unexpected_end());
    }
    let schema_size: usize = read_u32_at(file, n - 16) as usize;
    let meta_size: usize = read_u32_at(file, n - 12) as usize;
    if n - FOOTER_SIZE < meta_size || n - FOOTER_SIZE - meta_size < schema_size {
        return Err(unexpected_end());
    }
    let end: usize = n - FOOTER_SIZE - meta_size;
    Ok(copy_range(file, end - schema_size, end))
}

/// The bytes at the end of a file of `total_len` bytes that are read first:
/// the last sixty-four kilobytes, or the whole file if it is shorter.
pub fn footer_pre_read_range(total_len: u64) -> (r: (u64, u64))
    ensures
        r.1 == total_len,
        r.0 == (if total_len <= DEFAULT_FOOTER_SIZE {
            0
        } else {
            (total_len - DEFAULT_FOOTER_SIZE) as u64
        }),
{
    let pre_read_len: u64 = if total_len < DEFAULT_FOOTER_SIZE {
        total_len
    } else {
        DEFAULT_FOOTER_SIZE
    };
    (total_len - pre_read_len, total_len)
}

/// What the end of a file tells about reading its footer.
#[derive(Debug, PartialEq, Eq)]
pub enum FooterRead {
    /// The bytes at hand hold the footer: the column descriptions and the
    /// bytes of the schema.
    Complete(Vec<ColumnMeta>, Vec<u8>),
    /// The footer is longer than the bytes at hand: so many bytes from the
    /// end of the file are to be read.
    NeedBytes(u64),
}

/// Reads the footer from the bytes at the end of a file, or tells how many
/// bytes from the end are needed where `tail` does not hold it all.
///
/// `tail` must hold the last sixteen bytes of the file at least. A footer
/// whose column descriptions end too early is refused.
pub fn read_footer(tail: &[u8]) -> (r: Result<FooterRead, Error>)
    ensures
        match r {
            Ok(FooterRead::Complete(columns, schema)) => tail@.len() >= 16 + meta_size_of(tail@)
                + schema_size_of(tail@) && schema@ == schema_bytes_of(tail@) && footer_columns(
                meta_bytes_of(tail@),
            ) == Some(columns_view(columns@)),
            Ok(FooterRead::NeedBytes(total)) => tail@.len() >= 16 && total == 16 + meta_size_of(
                tail@,
            ) + schema_size_of(tail@) && total > tail@.len(),
            Err(e) => if tail@.len() < 16 {
                e matches Error::OutOfSpec(m) && m@ == "file is too short"@
            } else {
                tail@.len() >= 16 + meta_size_of(tail@) + schema_size_of(tail@) && footer_columns(
                    meta_bytes_of(tail@),
                ) is None
            },
        },
{
    let n: usize = tail.len();
    if n < FOOTER_SIZE {
        return Err(Error::oos("file is too short"));
    }
    let schema_size: u64 = read_u32_at(tail, n - 16) as u64;
    let meta_size: u64 = read_u32_at(tail, n - 12) as u64;
    let total: u64 = schema_size + meta_size + 16;
    if total > n as u64 {
        return Ok(FooterRead::NeedBytes(total));
    }
    let schema = match read_schema_bytes(tail) {
        Ok(bytes) => bytes,
        Err(e) => {
            return Err(e);
        },
    };
    match read_meta(tail) {
        Ok(columns) => Ok(FooterRead::Complete(columns, schema)),
        Err(e) => Err(e),
    }
}

} // verus!
