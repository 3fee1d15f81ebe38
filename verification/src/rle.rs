//! Run-length compression of integers: each run of equal values is written
//! as its length and the value.

use vstd::prelude::*;
use vstd::string::*;
use crate::column_error::Error;

verus! {

/// An integer that can be written as bytes.
pub trait IntegerType: Copy + Sized {
    /// How many bytes the integer takes.
    spec fn width() -> nat;

    /// The bytes of the integer, the least significant first.
    spec fn le_bytes(self) -> Seq<u8>;

    /// The integer whose bytes stand at `at`, the least significant first.
    spec fn from_le_bytes_at(bytes: Seq<u8>, at: int) -> Self;

    /// The integer that stands where there is no value.
    spec fn zero() -> Self;

    /// How many bytes the integer takes.
    fn byte_width() -> (r: usize)
        ensures
            r == Self::width(),
            0 < r <= 16,
    ;

    /// Puts the bytes of the integer behind those of `out`.
    fn write_le(self, out: &mut Vec<u8>)
        ensures
            final(out)@ == old(out)@ + self.le_bytes(),
            self.le_bytes().len() == Self::width(),
    ;

    /// Reads the integer whose bytes stand at `at`.
    fn read_le(bytes: &[u8], at: usize) -> (r: Self)
        requires
            at + Self::width() <= bytes@.len(),
        ensures
            r == Self::from_le_bytes_at(bytes@, at as int),
    ;

    /// Whether two integers are the same.
    fn same(self, other: Self) -> (r: bool)
        ensures
            r == (self == other),
    ;

    /// The integer that stands where there is no value.
    fn default_value() -> (r: Self)
        ensures
            r == Self::zero(),
    ;
}

impl IntegerType for u8 {
    open spec fn width() -> nat {
        1
    }

    open spec fn le_bytes(self) -> Seq<u8> {
        seq![self]
    }

    open spec fn from_le_bytes_at(bytes: Seq<u8>, at: int) -> Self {
        bytes[at]
    }

    open spec fn zero() -> Self {
        0
    }

    fn byte_width() -> (r: usize) {
        1
    }

    fn write_le(self, out: &mut Vec<u8>) {
        out.push(self);
    }

    fn read_le(bytes: &[u8], at: usize) -> (r: Self) {
        bytes[at]
    }

    fn same(self, other: Self) -> (r: bool) {
        self == other
    }

    fn default_value() -> (r: Self) {
        0
    }
}

impl IntegerType for u16 {
    open spec fn width() -> nat {
        2
    }

    open spec fn le_bytes(self) -> Seq<u8> {
        seq![((self as u16) & 0xff) as u8, (((self as u16) >> 8) & 0xff) as u8]
    }

    open spec fn from_le_bytes_at(bytes: Seq<u8>, at: int) -> Self {
        (bytes[at] as u16) | ((bytes[at + 1] as u16) << 8)
    }

    open spec fn zero() -> Self {
        0
    }

    fn byte_width() -> (r: usize) {
        2
    }

    fn write_le(self, out: &mut Vec<u8>) {
        out.push(((self as u16) & 0xff) as u8);
        out.push((((self as u16) >> 8) & 0xff) as u8);
    }

    fn read_le(bytes: &[u8], at: usize) -> (r: Self) {
        (bytes[at] as u16) | ((bytes[at + 1] as u16) << 8)
    }

    fn same(self, other: Self) -> (r: bool) {
        self == other
    }

    fn default_value() -> (r: Self) {
        0
    }
}

impl IntegerType for u32 {
    open spec fn width() -> nat {
        4
    }

    open spec fn le_bytes(self) -> Seq<u8> {
        seq![((self as u32) & 0xff) as u8, (((self as u32) >> 8) & 0xff) as u8, (((self as u32) >> 16) & 0xff) as u8, (((self as u32) >> 24) & 0xff) as u8]
    }

    open spec fn from_le_bytes_at(bytes: Seq<u8>, at: int) -> Self {
        (bytes[at] as u32) | ((bytes[at + 1] as u32) << 8) | ((bytes[at + 2] as u32) << 16) | ((bytes[at + 3] as u32) << 24)
    }

    open spec fn zero() -> Self {
        0
    }

    fn byte_width() -> (r: usize) {
        4
    }

    fn write_le(self, out: &mut Vec<u8>) {
        out.push(((self as u32) & 0xff) as u8);
        out.push((((self as u32) >> 8) & 0xff) as u8);
        out.push((((self as u32) >> 16) & 0xff) as u8);
        out.push((((self as u32) >> 24) & 0xff) as u8);
    }

    fn read_le(bytes: &[u8], at: usize) -> (r: Self) {
        (bytes[at] as u32) | ((bytes[at + 1] as u32) << 8) | ((bytes[at + 2] as u32) << 16) | ((bytes[at + 3] as u32) << 24)
    }

    fn same(self, other: Self) -> (r: bool) {
        self == other
    }

    fn default_value() -> (r: Self) {
        0
    }
}

impl IntegerType for u64 {
    open spec fn width() -> nat {
        8
    }

    open spec fn le_bytes(self) -> Seq<u8> {
        seq![((self as u64) & 0xff) as u8, (((self as u64) >> 8) & 0xff) as u8, (((self as u64) >> 16) & 0xff) as u8, (((self as u64) >> 24) & 0xff) as u8, (((self as u64) >> 32) & 0xff) as u8, (((self as u64) >> 40) & 0xff) as u8, (((self as u64) >> 48) & 0xff) as u8, (((self as u64) >> 56) & 0xff) as u8]
    }

    open spec fn from_le_bytes_at(bytes: Seq<u8>, at: int) -> Self {
        (bytes[at] as u64) | ((bytes[at + 1] as u64) << 8) | ((bytes[at + 2] as u64) << 16) | ((bytes[at + 3] as u64) << 24) | ((bytes[at + 4] as u64) << 32) | ((bytes[at + 5] as u64) << 40) | ((bytes[at + 6] as u64) << 48) | ((bytes[at + 7] as u64) << 56)
    }

    open spec fn zero() -> Self {
        0
    }

    fn byte_width() -> (r: usize) {
        8
    }

    fn write_le(self, out: &mut Vec<u8>) {
        out.push(((self as u64) & 0xff) as u8);
        out.push((((self as u64) >> 8) & 0xff) as u8);
        out.push((((self as u64) >> 16) & 0xff) as u8);
        out.push((((self as u64) >> 24) & 0xff) as u8);
        out.push((((self as u64) >> 32) & 0xff) as u8);
        out.push((((self as u64) >> 40) & 0xff) as u8);
        out.push((((self as u64) >> 48) & 0xff) as u8);
        out.push((((self as u64) >> 56) & 0xff) as u8);
    }

    fn read_le(bytes: &[u8], at: usize) -> (r: Self) {
        (bytes[at] as u64) | ((bytes[at + 1] as u64) << 8) | ((bytes[at + 2] as u64) << 16) | ((bytes[at + 3] as u64) << 24) | ((bytes[at + 4] as u64) << 32) | ((bytes[at + 5] as u64) << 40) | ((bytes[at + 6] as u64) << 48) | ((bytes[at + 7] as u64) << 56)
    }

    fn same(self, other: Self) -> (r: bool) {
        self == other
    }

    fn default_value() -> (r: Self) {
        0
    }
}

impl IntegerType for i8 {
    open spec fn width() -> nat {
        1
    }

    open spec fn le_bytes(self) -> Seq<u8> {
        seq![(self as u8)]
    }

    open spec fn from_le_bytes_at(bytes: Seq<u8>, at: int) -> Self {
        bytes[at] as i8
    }

    open spec fn zero() -> Self {
        0
    }

    fn byte_width() -> (r: usize) {
        1
    }

    fn write_le(self, out: &mut Vec<u8>) {
        out.push((self as u8));
    }

    fn read_le(bytes: &[u8], at: usize) -> (r: Self) {
        bytes[at] as i8
    }

    fn same(self, other: Self) -> (r: bool) {
        self == other
    }

    fn default_value() -> (r: Self) {
        0
    }
}

impl IntegerType for i16 {
    open spec fn width() -> nat {
        2
    }

    open spec fn le_bytes(self) -> Seq<u8> {
        seq![((self as u16) & 0xff) as u8, (((self as u16) >> 8) & 0xff) as u8]
    }

    open spec fn from_le_bytes_at(bytes: Seq<u8>, at: int) -> Self {
        ((bytes[at] as u16) | ((bytes[at + 1] as u16) << 8)) as i16
    }

    open spec fn zero() -> Self {
        0
    }

    fn byte_width() -> (r: usize) {
        2
    }

    fn write_le(self, out: &mut Vec<u8>) {
        out.push(((self as u16) & 0xff) as u8);
        out.push((((self as u16) >> 8) & 0xff) as u8);
    }

    fn read_le(bytes: &[u8], at: usize) -> (r: Self) {
        ((bytes[at] as u16) | ((bytes[at + 1] as u16) << 8)) as i16
    }

    fn same(self, other: Self) -> (r: bool) {
        self == other
    }

    fn default_value() -> (r: Self) {
        0
    }
}

impl IntegerType for i32 {
    open spec fn width() -> nat {
        4
    }

    open spec fn le_bytes(self) -> Seq<u8> {
        seq![((self as u32) & 0xff) as u8, (((self as u32) >> 8) & 0xff) as u8, (((self as u32) >> 16) & 0xff) as u8, (((self as u32) >> 24) & 0xff) as u8]
    }

    open spec fn from_le_bytes_at(bytes: Seq<u8>, at: int) -> Self {
        ((bytes[at] as u32) | ((bytes[at + 1] as u32) << 8) | ((bytes[at + 2] as u32) << 16) | ((bytes[at + 3] as u32) << 24)) as i32
    }

    open spec fn zero() -> Self {
        0
    }

    fn byte_width() -> (r: usize) {
        4
    }

    fn write_le(self, out: &mut Vec<u8>) {
        out.push(((self as u32) & 0xff) as u8);
        out.push((((self as u32) >> 8) & 0xff) as u8);
        out.push((((self as u32) >> 16) & 0xff) as u8);
        out.push((((self as u32) >> 24) & 0xff) as u8);
    }

    fn read_le(bytes: &[u8], at: usize) -> (r: Self) {
        ((bytes[at] as u32) | ((bytes[at + 1] as u32) << 8) | ((bytes[at + 2] as u32) << 16) | ((bytes[at + 3] as u32) << 24)) as i32
    }

    fn same(self, other: Self) -> (r: bool) {
        self == other
    }

    fn default_value() -> (r: Self) {
        0
    }
}

impl IntegerType for i64 {
    open spec fn width() -> nat {
        8
    }

    open spec fn le_bytes(self) -> Seq<u8> {
        seq![((self as u64) & 0xff) as u8, (((self as u64) >> 8) & 0xff) as u8, (((self as u64) >> 16) & 0xff) as u8, (((self as u64) >> 24) & 0xff) as u8, (((self as u64) >> 32) & 0xff) as u8, (((self as u64) >> 40) & 0xff) as u8, (((self as u64) >> 48) & 0xff) as u8, (((self as u64) >> 56) & 0xff) as u8]
    }

    open spec fn from_le_bytes_at(bytes: Seq<u8>, at: int) -> Self {
        ((bytes[at] as u64) | ((bytes[at + 1] as u64) << 8) | ((bytes[at + 2] as u64) << 16) | ((bytes[at + 3] as u64) << 24) | ((bytes[at + 4] as u64) << 32) | ((bytes[at + 5] as u64) << 40) | ((bytes[at + 6] as u64) << 48) | ((bytes[at + 7] as u64) << 56)) as i64
    }

    open spec fn zero() -> Self {
        0
    }

    fn byte_width() -> (r: usize) {
        8
    }

    fn write_le(self, out: &mut Vec<u8>) {
        out.push(((self as u64) & 0xff) as u8);
        out.push((((self as u64) >> 8) & 0xff) as u8);
        out.push((((self as u64) >> 16) & 0xff) as u8);
        out.push((((self as u64) >> 24) & 0xff) as u8);
        out.push((((self as u64) >> 32) & 0xff) as u8);
        out.push((((self as u64) >> 40) & 0xff) as u8);
        out.push((((self as u64) >> 48) & 0xff) as u8);
        out.push((((self as u64) >> 56) & 0xff) as u8);
    }

    fn read_le(bytes: &[u8], at: usize) -> (r: Self) {
        ((bytes[at] as u64) | ((bytes[at + 1] as u64) << 8) | ((bytes[at + 2] as u64) << 16) | ((bytes[at + 3] as u64) << 24) | ((bytes[at + 4] as u64) << 32) | ((bytes[at + 5] as u64) << 40) | ((bytes[at + 6] as u64) << 48) | ((bytes[at + 7] as u64) << 56)) as i64
    }

    fn same(self, other: Self) -> (r: bool) {
        self == other
    }

    fn default_value() -> (r: Self) {
        0
    }
}

/// Run-length compression.
#[derive(Debug, Clone, Copy, PartialEq, Eq, Hash)]
pub struct Rle {}

/// The value at `i` where it is valid; where it is not, the valid value
/// before it; where there is none before it, the first valid value; and
/// where no value is valid at all, zero.
pub open spec fn filled_at<T: IntegerType>(values: Seq<T>, valid: Seq<bool>, i: int) -> T
    decreases values.len() + i,
{
    if 0 <= i < values.len() {
        if valid[i] {
            values[i]
        } else if i > 0 && has_valid(valid, i) {
            filled_at(values, valid, i - 1)
        } else {
            first_valid(values, valid, i + 1)
        }
    } else {
        T::zero()
    }
}

/// Whether one of the first `upto` values is valid.
pub open spec fn has_valid(valid: Seq<bool>, upto: int) -> bool {
    exists|j: int| 0 <= j < upto && j < valid.len() && #[trigger] valid[j]
}

/// The first valid value from `from` on, or zero where there is none.
pub open spec fn first_valid<T: IntegerType>(values: Seq<T>, valid: Seq<bool>, from: int) -> T
    decreases values.len() - from,
{
    if from < 0 || from >= values.len() {
        T::zero()
    } else if valid[from] {
        values[from]
    } else {
        first_valid(values, valid, from + 1)
    }
}

/// The values with every place that is not valid filled.
pub open spec fn filled<T: IntegerType>(values: Seq<T>, valid: Seq<bool>) -> Seq<T> {
    Seq::new(values.len(), |i: int| filled_at(values, valid, i))
}

/// The runs of `values`: each greatest stretch of equal values, as its
/// length and the value.
pub open spec fn runs<T>(values: Seq<T>) -> Seq<(nat, T)>
    decreases values.len(),
{
    if values.len() == 0 {
        Seq::empty()
    } else {
        let before = runs(values.drop_last());
        if before.len() > 0 && before.last().1 == values.last() {
            before.drop_last().push((before.last().0 + 1, values.last()))
        } else {
            before.push((1nat, values.last()))
        }
    }
}

/// The bytes of a count, the least significant first.
pub open spec fn count_bytes(count: u32) -> Seq<u8> {
    seq![
        (count & 0xff) as u8,
        ((count >> 8) & 0xff) as u8,
        ((count >> 16) & 0xff) as u8,
        ((count >> 24) & 0xff) as u8,
    ]
}

/// Runs as bytes: for each run its length in four bytes and its value.
pub open spec fn runs_bytes<T: IntegerType>(runs: Seq<(nat, T)>) -> Seq<u8>
    decreases runs.len(),
{
    if runs.len() == 0 {
        Seq::empty()
    } else {
        runs_bytes(runs.drop_last()) + count_bytes(runs.last().0 as u32) + runs.last().1.le_bytes()
    }
}

/// Whether the value at `i` is valid: every value is where `validity` is
/// `None`.
pub open spec fn valid_at(validity: Option<Vec<bool>>, i: int) -> bool {
    match validity {
        Some(bits) => 0 <= i < bits@.len() && bits@[i],
        None => true,
    }
}

/// The validity of `n` values as a sequence.
pub open spec fn validity_view(validity: Option<Vec<bool>>, n: nat) -> Seq<bool> {
    Seq::new(n, |i: int| valid_at(validity, i))
}

/// Whether the value at `i` is valid.
pub fn is_valid(validity: &Option<Vec<bool>>, i: usize) -> (r: bool)
    ensures
        r == valid_at(*validity, i as int),
{
    match validity {
        Some(bits) => i < bits.len() && bits[i],
        None => true,
    }
}

/// Puts the bytes of a count behind those of `out`.
fn write_count(count: u32, out: &mut Vec<u8>)
    ensures
        final(out)@ == old(out)@ + count_bytes(count),
{
    out.push((count & 0xff) as u8);
    out.push(((count >> 8) & 0xff) as u8);
    out.push(((count >> 16) & 0xff) as u8);
    out.push(((count >> 24) & 0xff) as u8);
}

/// What the compressor holds after some values: the runs that it has
/// written, and the run that it is in.
pub open spec fn pending<T: IntegerType>(
    written: Seq<(nat, T)>,
    seen: nat,
    last: T,
) -> Seq<(nat, T)> {
    if seen == 0 {
        written
    } else {
        written.push((seen, last))
    }
}

impl Rle {
    /// Writes the runs of `values` behind the bytes of `w`. A value that is
    /// not valid counts as the valid value before it, those in front of the
    /// first valid value as that value, and all of them as zero where none
    /// is valid.
    pub fn compress_integer<T: IntegerType>(
        &self,
        w: &mut Vec<u8>,
        values: &Vec<T>,
        validity: Option<Vec<bool>>,
    ) -> (r: Result<(), Error>)
        requires
            values@.len() <= u32::MAX,
        ensures
            r is Ok,
            final(w)@ == old(w)@ + runs_bytes(
                runs(filled(values@, validity_view(validity, values@.len()))),
            ),
    {
        let ghost valid = validity_view(validity, values@.len());
        let ghost full = filled(values@, valid);
        let ghost mut written: Seq<(nat, T)> = Seq::empty();
        let mut seen_count: u32 = 0;
        let mut last_value: T = T::default_value();
        let mut all_null: bool = true;
        let mut i: usize = 0;
        while i < values.len()
            invariant
                i <= values.len(),
                values@.len() <= u32::MAX,
                valid == validity_view(validity, values@.len()),
                full == filled(values@, valid),
                seen_count <= i,
                w@ == old(w)@ + runs_bytes(written),
                all_null ==> seen_count == i && written.len() == 0 && !has_valid(valid, i as int)
                    && last_value == T::zero(),
                !all_null ==> seen_count > 0 && has_valid(valid, i as int) && last_value
                    == full[i - 1] && runs(full.take(i as int)) == pending(
                    written,
                    seen_count as nat,
                    last_value,
                ),
                !all_null ==> (written.len() > 0 ==> written.last().1 != last_value),
            decreases values.len() - i,
        {
            let item: T = values[i];
            let ghost before = full.take(i as int);
            let ghost now = full.take(i + 1);
            proof {
                assert(now.drop_last() =~= before);
            }
            if is_valid(&validity, i) {
                if all_null {
                    all_null = false;
                    last_value = item;
                    seen_count += 1;
                    proof {
                        lemma_leading_fill(values@, valid, i as int);
                        lemma_runs_constant(now, item);
                    }
                } else if !last_value.same(item) {
                    write_count(seen_count, w);
                    last_value.write_le(w);
                    proof {
                        let old_written = written;
                        written = written.push((seen_count as nat, last_value));
                        assert(written.drop_last() =~= old_written);
                    }
                    last_value = item;
                    seen_count = 1;
                } else {
                    seen_count += 1;
                }
            } else {
                // NULL value: we merely increment the seen_count
                seen_count += 1;
            }
            i += 1;
        }
        proof {
            assert(full.take(values@.len() as int) =~= full);
        }
        if seen_count != 0 {
            write_count(seen_count, w);
            last_value.write_le(w);
            proof {
                if all_null {
                    lemma_all_null_fill(values@, valid);
                    lemma_runs_constant(full, T::zero());
                }
                let all = runs(full);
                assert(all.drop_last() =~= written);
            }
        }
        Ok(())
    }

    /// Reads runs from `input` and puts their values behind those of
    /// `array`, until `length` values at least have been put there. One run
    /// is read even where `length` is zero. What is left of `input` is given
    /// back. Input that ends within a run is refused; the values of the runs
    /// before it stay in `array`.
    pub fn decompress_integer<'a, T: IntegerType>(
        &self,
        input: &'a [u8],
        length: usize,
        array: &mut Vec<T>,
    ) -> (r: Result<&'a [u8], Error>)
        ensures
            match r {
                Ok(rest) => exists|n: nat|
                    {
                        &&& #[trigger] decoded_ok(input@, length as int, n, T::width())
                        &&& final(array)@ == old(array)@ + decoded_values::<T>(input@, n)
                        &&& rest@ == input@.subrange(
                            (n * (4 + T::width())) as int,
                            input@.len() as int,
                        )
                    },
                Err(e) => e is Io && exists|n: nat|
                    {
                        &&& #[trigger] decoded_short(input@, length as int, n, T::width())
                        &&& final(array)@ == old(array)@ + decoded_values::<T>(input@, n)
                    },
            },
    {
        let width: usize = T::byte_width();
        let n_bytes: usize = input.len();
        let mut at: usize = 0;
        let mut num_values: u128 = 0;
        let mut runs_read: usize = 0;
        loop
            invariant
                width == T::width(),
                0 < width <= 16,
                n_bytes == input@.len(),
                at == runs_read * (4 + width),
                at <= n_bytes,
                num_values == decoded_count(input@, runs_read as nat, width as nat),
                runs_read > 0 ==> num_values < length,
                num_values <= runs_read * 0xffff_ffff,
                array@ == old(array)@ + decoded_values::<T>(input@, runs_read as nat),
            decreases n_bytes - at,
        {
            if n_bytes - at < 4 + width {
                proof {
                    let r = runs_read as nat;
                    assert((r + 1) * (4 + width) == r * (4 + width) + (4 + width))
                        by (nonlinear_arith);
                    assert(decoded_short(input@, length as int, r, T::width()));
                }
                return Err(Error::Io(String::from_str("failed to fill whole buffer")));
            }
            let len: u32 = crate::native_meta::read_u32_at(input, at);
            let t: T = T::read_le(input, at + 4);
            let ghost before = array@;
            let mut k: u32 = 0;
            while k < len
                invariant
                    k <= len,
                    array@ == before + Seq::new(k as nat, |j: int| t),
                decreases len - k,
            {
                array.push(t);
                k += 1;
            }
            proof {
                let r = runs_read as nat;
                assert((r + 1) * (4 + width) == r * (4 + width) + (4 + width))
                    by (nonlinear_arith);
                assert((r + 1) * 0xffff_ffff == r * 0xffff_ffff + 0xffff_ffff)
                    by (nonlinear_arith);
                assert(r * 0xffff_ffff <= 0xffff_ffff_ffff_ffff * 0xffff_ffff) by (nonlinear_arith)
                    requires
                        r <= 0xffff_ffff_ffff_ffff,
                ;
            }
            num_values = num_values + len as u128;
            at = at + 4 + width;
            runs_read = runs_read + 1;
            if num_values >= length as u128 {
                proof {
                    assert(decoded_ok(input@, length as int, runs_read as nat, T::width()));
                    assert(input@.subrange(at as int, n_bytes as int) =~= input@.subrange(
                        (runs_read * (4 + T::width())) as int,
                        input@.len() as int,
                    ));
                }
                return Ok(crate::slices::bytes_from(input, at));
            }
        }
    }
}

/// The length of run `k` of the input, each run taking four bytes and
/// `width` more.
pub open spec fn run_count_at(input: Seq<u8>, k: nat, width: nat) -> u32 {
    crate::native_meta::u32_le_at(input, (k * (4 + width)) as int)
}

/// The value of run `k` of the input.
pub open spec fn run_value_at<T: IntegerType>(input: Seq<u8>, k: nat) -> T {
    T::from_le_bytes_at(input, (k * (4 + T::width()) + 4) as int)
}

/// How many values the first `n` runs of the input hold.
pub open spec fn decoded_count(input: Seq<u8>, n: nat, width: nat) -> int
    decreases n,
{
    if n == 0 {
        0
    } else {
        decoded_count(input, (n - 1) as nat, width) + run_count_at(input, (n - 1) as nat, width)
    }
}

/// The values of the first `n` runs of the input.
pub open spec fn decoded_values<T: IntegerType>(input: Seq<u8>, n: nat) -> Seq<T>
    decreases n,
{
    if n == 0 {
        Seq::empty()
    } else {
        decoded_values::<T>(input, (n - 1) as nat) + Seq::new(
            run_count_at(input, (n - 1) as nat, T::width()) as nat,
            |j: int| run_value_at::<T>(input, (n - 1) as nat),
        )
    }
}

/// Whether a reader that is to give `length` values reads `n` runs: the
/// input holds them, they are one at least, and they are the fewest runs
/// that hold `length` values.
pub open spec fn decoded_ok(input: Seq<u8>, length: int, n: nat, width: nat) -> bool {
    &&& n >= 1
    &&& n * (4 + width) <= input.len()
    &&& decoded_count(input, n, width) >= length
    &&& n > 1 ==> decoded_count(input, (n - 1) as nat, width) < length
}

/// Whether the input ends within run `n`, before a reader that is to give
/// `length` values has read enough.
pub open spec fn decoded_short(input: Seq<u8>, length: int, n: nat, width: nat) -> bool {
    &&& n * (4 + width) <= input.len() < (n + 1) * (4 + width)
    &&& n > 0 ==> decoded_count(input, n, width) < length
}

/// Values that are all `v` form one run.
proof fn lemma_runs_constant<T>(values: Seq<T>, v: T)
    requires
        values.len() > 0,
        forall|i: int| 0 <= i < values.len() ==> values[i] == v,
    ensures
        runs(values) == seq![(values.len(), v)],
    decreases values.len(),
{
    if values.len() == 1 {
        assert(runs(values.drop_last()) =~= Seq::<(nat, T)>::empty());
    } else {
        lemma_runs_constant(values.drop_last(), v);
    }
}

/// Where the value at `i` is the first valid one, every place up to `i` is
/// filled with it.
proof fn lemma_leading_fill<T: IntegerType>(values: Seq<T>, valid: Seq<bool>, i: int)
    requires
        0 <= i < values.len(),
        valid.len() == values.len(),
        valid[i],
        !has_valid(valid, i),
    ensures
        forall|j: int| 0 <= j <= i ==> #[trigger] filled(values, valid)[j] == values[i],
{
    assert forall|j: int| 0 <= j <= i implies #[trigger] filled(values, valid)[j] == values[i] by {
        lemma_first_valid(values, valid, j, i);
        if j < i {
            lemma_first_valid(values, valid, j + 1, i);
        }
    }
}

/// The first valid value from `from` on is the one at `i`, where none
/// between them is valid.
proof fn lemma_first_valid<T: IntegerType>(values: Seq<T>, valid: Seq<bool>, from: int, i: int)
    requires
        0 <= from <= i < values.len(),
        valid.len() == values.len(),
        valid[i],
        forall|j: int| from <= j < i ==> !#[trigger] valid[j],
    ensures
        first_valid(values, valid, from) == values[i],
    decreases i - from,
{
    if from < i {
        lemma_first_valid(values, valid, from + 1, i);
    }
}

/// Where no value is valid, every place is filled with zero.
proof fn lemma_all_null_fill<T: IntegerType>(values: Seq<T>, valid: Seq<bool>)
    requires
        valid.len() == values.len(),
        !has_valid(valid, values.len() as int),
    ensures
        forall|j: int| 0 <= j < values.len() ==> #[trigger] filled(values, valid)[j] == T::zero(),
{
    assert forall|j: int| 0 <= j < values.len() implies #[trigger] filled(values, valid)[j]
        == T::zero() by {
        lemma_no_valid(values, valid, j + 1);
    }
}

/// Where no value from `from` on is valid, the first valid value from
/// there on is zero.
proof fn lemma_no_valid<T: IntegerType>(values: Seq<T>, valid: Seq<bool>, from: int)
    requires
        0 <= from <= values.len(),
        valid.len() == values.len(),
        !has_valid(valid, values.len() as int),
    ensures
        first_valid(values, valid, from) == T::zero(),
    decreases values.len() - from,
{
    if from < values.len() {
        lemma_no_valid(values, valid, from + 1);
    }
}

} // verus!
