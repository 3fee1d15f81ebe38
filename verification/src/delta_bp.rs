//! Compression of sorted integers: blocks of the differences between
//! neighbours, bit-packed by the bitpacking library.

use vstd::prelude::*;
use vstd::string::*;
use crate::column_error::Error;
use crate::slices::{bytes_between, words_between};

verus! {

/// How many integers make a block.
pub const BLOCK_LEN: usize = 128;

/// Delta bit-packing.
#[derive(Debug, Clone, Copy, PartialEq, Eq, Hash)]
pub struct DeltaBitpacking {}

/// The bytes into which the bitpacking library packs the block `block` of
/// sorted integers, with `num_bits` bits to a difference, the first
/// difference taken from `initial`.
pub uninterp spec fn packed_sorted(initial: u32, block: Seq<u32>, num_bits: u8) -> Seq<u8>;

/// The block that the bitpacking library unpacks from `packed`, with
/// `num_bits` bits to a difference, the first difference added to `initial`.
pub uninterp spec fn unpacked_sorted(initial: u32, packed: Seq<u8>, num_bits: u8) -> Seq<u32>;

/// How many bytes a packed block takes.
pub open spec fn packed_len(num_bits: u8) -> int {
    num_bits as int * 16
}

/// Whether every integer of `block` is written in `num_bits` bits.
pub open spec fn fits_in_bits(block: Seq<u32>, num_bits: u8) -> bool {
    forall|i: int| 0 <= i < block.len() ==> (#[trigger] block[i] as int) < pow2(num_bits as nat)
}

/// Two to the power of `n`.
pub open spec fn pow2(n: nat) -> int
    decreases n,
{
    if n == 0 {
        1
    } else {
        2 * pow2((n - 1) as nat)
    }
}

/// Whether `block` does not descend, from `initial` on.
pub open spec fn is_sorted_from(initial: u32, block: Seq<u32>) -> bool {
    &&& block.len() > 0 ==> initial <= block[0]
    &&& forall|i: int, j: int| 0 <= i <= j < block.len() ==> block[i] <= block[j]
}

/// `BitPacker4x::num_bits`: the least number of bits in which the greatest
/// integer of the block is written.
#[verifier::external_body]
fn block_num_bits(block: &[u32]) -> (num_bits: u8)
    requires
        block@.len() == BLOCK_LEN,
    ensures
        is_bits_needed(block@, num_bits),
{
    bitpacking::BitPacker::num_bits(&<bitpacking::BitPacker4x as bitpacking::BitPacker>::new(), block)
}

/// `BitPacker4x::compress_sorted`: packs a block into the front of `out`
/// and tells how many bytes it took, which are sixteen for each bit.
#[verifier::external_body]
fn pack_sorted(initial: u32, block: &[u32], out: &mut Vec<u8>, num_bits: u8) -> (size: usize)
    requires
        block@.len() == BLOCK_LEN,
        num_bits <= 32,
        old(out)@.len() >= packed_len(num_bits),
    ensures
        size == packed_len(num_bits),
        final(out)@.len() == old(out)@.len(),
        final(out)@.subrange(0, size as int) == packed_sorted(initial, block@, num_bits),
{
    bitpacking::BitPacker::compress_sorted(
        &<bitpacking::BitPacker4x as bitpacking::BitPacker>::new(),
        initial,
        block,
        out.as_mut_slice(),
        num_bits,
    )
}

/// `BitPacker4x::decompress_sorted`: unpacks a block from the front of
/// `packed` into `out` and tells how many bytes it read, which are sixteen
/// for each bit.
#[verifier::external_body]
fn unpack_sorted(initial: u32, packed: &[u8], out: &mut Vec<u32>, num_bits: u8) -> (size: usize)
    requires
        num_bits <= 32,
        packed@.len() >= packed_len(num_bits),
        old(out)@.len() == BLOCK_LEN,
    ensures
        size == packed_len(num_bits),
        final(out)@.len() == BLOCK_LEN,
        final(out)@ == unpacked_sorted(
            initial,
            packed@.subrange(0, packed_len(num_bits)),
            num_bits,
        ),
{
    bitpacking::BitPacker::decompress_sorted(
        &<bitpacking::BitPacker4x as bitpacking::BitPacker>::new(),
        initial,
        packed,
        out.as_mut_slice(),
        num_bits,
    )
}

/// What a block starts from: the last integer of the block before it, or
/// zero for the first block.
pub open spec fn block_initial(array: Seq<u32>, k: int) -> u32 {
    if k == 0 {
        0
    } else {
        array[k * BLOCK_LEN - 1]
    }
}

/// Block `k` of the array.
pub open spec fn block_of(array: Seq<u32>, k: int) -> Seq<u32> {
    array.subrange(k * BLOCK_LEN, (k + 1) * BLOCK_LEN)
}

/// Whether `num_bits` is the least number of bits, thirty-two at most, in
/// which every integer of `block` is written.
pub open spec fn is_bits_needed(block: Seq<u32>, num_bits: u8) -> bool {
    &&& num_bits <= 32
    &&& fits_in_bits(block, num_bits)
    &&& num_bits > 0 ==> !fits_in_bits(block, (num_bits - 1) as u8)
}

/// The least number of bits in which every integer of `block` is written.
pub open spec fn bits_needed(block: Seq<u32>) -> u8 {
    choose|num_bits: u8| is_bits_needed(block, num_bits)
}

/// Two to a greater power is no less.
pub proof fn lemma_pow2_monotone(a: nat, b: nat)
    requires
        a <= b,
    ensures
        0 < pow2(a) <= pow2(b),
    decreases b,
{
    if b == 0 {
    } else if a == b {
        lemma_pow2_monotone((a - 1) as nat, (b - 1) as nat);
    } else {
        lemma_pow2_monotone(a, (b - 1) as nat);
    }
}

/// There is one least number of bits only.
pub proof fn lemma_bits_needed_unique(block: Seq<u32>, num_bits: u8)
    requires
        is_bits_needed(block, num_bits),
    ensures
        bits_needed(block) == num_bits,
{
    let other = bits_needed(block);
    if other < num_bits {
        lemma_fits_monotone(block, other, (num_bits - 1) as u8);
    } else if num_bits < other {
        lemma_fits_monotone(block, num_bits, (other - 1) as u8);
    }
}

/// What fits in fewer bits fits in more.
pub proof fn lemma_fits_monotone(block: Seq<u32>, a: u8, b: u8)
    requires
        a <= b,
        fits_in_bits(block, a),
    ensures
        fits_in_bits(block, b),
{
    lemma_pow2_monotone(a as nat, b as nat);
}

/// The first `blocks` blocks of `array`, compressed: for each block the
/// number of bits to a difference, in one byte, and the packed block.
pub open spec fn compressed(array: Seq<u32>, blocks: int) -> Seq<u8>
    decreases blocks,
{
    if blocks <= 0 {
        Seq::empty()
    } else {
        compressed(array, blocks - 1) + seq![bits_needed(block_of(array, blocks - 1))]
            + packed_sorted(
            block_initial(array, blocks - 1),
            block_of(array, blocks - 1),
            bits_needed(block_of(array, blocks - 1)),
        )
    }
}

/// The integers that `blocks` blocks at the front of `input` unpack to, the
/// first from `initial`, each of the others from the last integer of the
/// block before it. Each block stands as the number of its bits,
/// thirty-two at most, and its packed bytes. `None` where the input ends
/// within a block or tells of more bits.
pub open spec fn decompressed(input: Seq<u8>, blocks: int, initial: u32) -> Option<Seq<u32>>
    decreases blocks,
{
    if blocks <= 0 {
        Some(Seq::empty())
    } else if input.len() < 1 || input[0] > 32 || input.len() < 1 + packed_len(input[0]) {
        None
    } else {
        let block = unpacked_sorted(
            initial,
            input.subrange(1, 1 + packed_len(input[0])),
            input[0],
        );
        match decompressed(
            input.subrange(1 + packed_len(input[0]), input.len() as int),
            blocks - 1,
            block[BLOCK_LEN - 1],
        ) {
            Some(rest) => Some(block + rest),
            None => None,
        }
    }
}

/// What `decompressed` gives from `input` on, with `done` put in front.
spec fn decompressed_from(done: Seq<u32>, input: Seq<u8>, blocks: int, initial: u32) -> Option<
    Seq<u32>,
> {
    match decompressed(input, blocks, initial) {
        Some(rest) => Some(done + rest),
        None => None,
    }
}

/// How many blocks hold `length` integers.
pub open spec fn blocks_for(length: int) -> int {
    if length % (BLOCK_LEN as int) == 0 {
        length / (BLOCK_LEN as int)
    } else {
        length / (BLOCK_LEN as int) + 1
    }
}

/// A buffer of `n` zero bytes.
fn zeroed(n: usize) -> (r: Vec<u8>)
    ensures
        r@.len() == n,
{
    let mut r: Vec<u8> = Vec::new();
    let mut i: usize = 0;
    while i < n
        invariant
            i <= n,
            r@.len() == i,
        decreases n - i,
    {
        r.push(0);
        i += 1;
    }
    r
}

/// A buffer of a block of zeros.
fn zeroed_block() -> (r: Vec<u32>)
    ensures
        r@.len() == BLOCK_LEN,
{
    let mut r: Vec<u32> = Vec::new();
    let mut i: usize = 0;
    while i < BLOCK_LEN
        invariant
            i <= BLOCK_LEN,
            r@.len() == i,
        decreases BLOCK_LEN - i,
    {
        r.push(0);
        i += 1;
    }
    r
}

impl DeltaBitpacking {
    /// Whether the array can be compressed: it is made of whole blocks and
    /// does not descend.
    pub fn can_compress(&self, array: &Vec<u32>) -> (r: bool)
        ensures
            r == (array@.len() as int % BLOCK_LEN as int == 0 && is_sorted_from(0, array@)),
    {
        if array.len() % BLOCK_LEN != 0 {
            return false;
        }
        let mut i: usize = 1;
        while i < array.len()
            invariant
                1 <= i,
                array@.len() > 0 ==> i <= array@.len(),
                forall|a: int, b: int| 0 <= a <= b < i && b < array@.len() ==> array@[a] <= array@[b],
            decreases array.len() - i,
        {
            if array[i - 1] > array[i] {
                return false;
            }
            i += 1;
        }
        true
    }

    /// Compresses an array of whole blocks, puts the bytes behind those of
    /// `output`, and tells how many they are. The differences are taken as
    /// they wrap, so that only an array that does not descend is read back
    /// as it was.
    pub fn compress(&self, array: &Vec<u32>, output: &mut Vec<u8>) -> (r: Result<usize, Error>)
        requires
            array@.len() as int % BLOCK_LEN as int == 0,
        ensures
            match r {
                Ok(size) => final(output)@ == old(output)@ + compressed(
                    array@,
                    array@.len() as int / BLOCK_LEN as int,
                ) && size == final(output)@.len() - old(output)@.len(),
                Err(_) => false,
            },
    {
        let n: usize = array.len();
        let start_len: usize = output.len();
        let mut initial: u32 = 0;
        let mut k: usize = 0;
        while k < n / BLOCK_LEN
            invariant
                n == array@.len(),
                n as int % BLOCK_LEN as int == 0,
                k <= n / BLOCK_LEN,
                initial == block_initial(array@, k as int),
                output@ == old(output)@ + compressed(array@, k as int),
            decreases n / BLOCK_LEN - k,
        {
            let start: usize = k * BLOCK_LEN;
            let block = words_between(array, start, start + BLOCK_LEN);
            let num_bits: u8 = block_num_bits(block);
            proof {
                lemma_bits_needed_unique(block@, num_bits);
            }
            let mut packed = zeroed(4 * BLOCK_LEN);
            let packed_size = pack_sorted(initial, block, &mut packed, num_bits);
            let ghost before = output@;
            output.push(num_bits);
            let mut i: usize = 0;
            while i < packed_size
                invariant
                    i <= packed_size <= packed@.len(),
                    output@ == before + seq![num_bits] + packed@.subrange(0, i as int),
                decreases packed_size - i,
            {
                output.push(packed[i]);
                i += 1;
            }
            initial = block[BLOCK_LEN - 1];
            k += 1;
        }
        Ok(output.len() - start_len)
    }

    /// Decompresses as many blocks as hold `length` integers and puts the
    /// integers behind those of `output`. Input that ends within a block,
    /// or that tells of more than thirty-two bits to a difference, is
    /// refused; the blocks before it stay in `output`.
    pub fn decompress(&self, input: &[u8], length: usize, output: &mut Vec<u32>) -> (r: Result<
        (),
        Error,
    >)
        ensures
            match r {
                Ok(_) => decompressed(input@, blocks_for(length as int), 0) == Some(
                    final(output)@.subrange(old(output)@.len() as int, final(output)@.len() as int),
                ) && final(output)@.subrange(0, old(output)@.len() as int) == old(output)@,
                Err(e) => decompressed(input@, blocks_for(length as int), 0) is None && e is Io,
            },
    {
        let blocks: usize = if length % BLOCK_LEN == 0 {
            length / BLOCK_LEN
        } else {
            length / BLOCK_LEN + 1
        };
        let n: usize = input.len();
        let mut at: usize = 0;
        let mut initial: u32 = 0;
        let mut k: usize = 0;
        let ghost mut values: Seq<u32> = Seq::empty();
        proof {
            assert(input@.subrange(0, n as int) =~= input@);
        }
        while k < blocks
            invariant
                k <= blocks,
                blocks == blocks_for(length as int),
                n == input@.len(),
                at <= n,
                output@ == old(output)@ + values,
                decompressed_from(
                    values,
                    input@.subrange(at as int, n as int),
                    blocks - k,
                    initial,
                ) == decompressed(input@, blocks as int, 0),
            decreases blocks - k,
        {
            let ghost here = input@.subrange(at as int, n as int);
            if n - at < 1 {
                return Err(Error::Io(String::from_str("failed to fill whole buffer")));
            }
            let num_bits: u8 = input[at];
            if num_bits > 32 || n - at - 1 < (num_bits as usize) * 16 {
                return Err(Error::Io(String::from_str("failed to fill whole buffer")));
            }
            let packed = bytes_between(input, at + 1, n);
            let mut block = zeroed_block();
            let size = unpack_sorted(initial, packed, &mut block, num_bits);
            let ghost before = values;
            proof {
                assert(packed@.subrange(0, packed_len(num_bits)) =~= here.subrange(
                    1,
                    1 + packed_len(num_bits),
                ));
            }
            let mut i: usize = 0;
            while i < BLOCK_LEN
                invariant
                    i <= BLOCK_LEN,
                    block@.len() == BLOCK_LEN,
                    output@ == old(output)@ + before + block@.subrange(0, i as int),
                decreases BLOCK_LEN - i,
            {
                output.push(block[i]);
                i += 1;
            }
            let next_initial: u32 = block[BLOCK_LEN - 1];
            let next_at: usize = at + 1 + size;
            proof {
                values = before + block@;
                let after = input@.subrange(next_at as int, n as int);
                assert(after =~= here.subrange(1 + packed_len(num_bits), here.len() as int));
            }
            initial = next_initial;
            at = next_at;
            k += 1;
        }
        Ok(())
    }
}

} // verus!
