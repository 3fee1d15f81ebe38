//! Content digests: the 64-bit hash by which a value is looked up in a bloom
//! digest, and the 128-bit digest by which a row is told from other rows.

use vstd::prelude::*;

verus! {

/// Where a 64-bit hash starts from.
pub const HASH64_BASIS: u64 = 0xcbf2_9ce4_8422_2325;

/// What a 64-bit hash is multiplied by after each byte.
pub const HASH64_PRIME: u64 = 0x0000_0100_0000_01b3;

/// Where a 128-bit digest starts from.
pub const HASH128_BASIS: u128 = 0x6c62_272e_07bb_0142_62b8_2175_6295_c58d;

/// What a 128-bit digest is multiplied by after each byte.
pub const HASH128_PRIME: u128 = 0x0000_0000_0100_0000_0000_0000_0000_013b;

/// Byte `i` of `v`, the least significant first.
pub open spec fn byte_of(v: i64, i: u32) -> u8 {
    (((v as u64) >> ((8 * i) as u64)) & 0xff) as u8
}

/// The 64-bit hash `h` after one more byte.
pub open spec fn hash64_step(h: u64, byte: u8) -> u64 {
    (h ^ (byte as u64)).wrapping_mul(HASH64_PRIME)
}

/// The 64-bit hash `h` after the first `n` bytes of `v`.
pub open spec fn hash64_value(h: u64, v: i64, n: u32) -> u64
    decreases n,
{
    if n == 0 {
        h
    } else {
        hash64_step(hash64_value(h, v, (n - 1) as u32), byte_of(v, (n - 1) as u32))
    }
}

/// The hash by which the value `v` is looked up in a bloom digest.
pub open spec fn bloom_hash_of(v: i64) -> u64 {
    hash64_value(HASH64_BASIS, v, 8)
}

/// The 128-bit digest `h` after one more byte.
pub open spec fn hash128_step(h: u128, byte: u8) -> u128 {
    (h ^ (byte as u128)).wrapping_mul(HASH128_PRIME)
}

/// The 128-bit digest `h` after the first `n` bytes of `v`.
pub open spec fn hash128_value(h: u128, v: i64, n: u32) -> u128
    decreases n,
{
    if n == 0 {
        h
    } else {
        hash128_step(hash128_value(h, v, (n - 1) as u32), byte_of(v, (n - 1) as u32))
    }
}

/// The 128-bit digest `h` after the values `values`, one after the other.
pub open spec fn hash128_values(h: u128, values: Seq<i64>) -> u128
    decreases values.len(),
{
    if values.len() == 0 {
        h
    } else {
        hash128_value(hash128_values(h, values.drop_last()), values.last(), 8)
    }
}

/// The content digest of a row's key: the 128-bit digest of the values of
/// its key columns, in their order.
pub open spec fn key_digest_of(values: Seq<i64>) -> u128 {
    hash128_values(HASH128_BASIS, values)
}

/// Computes the hash by which a value is looked up in a bloom digest.
pub fn bloom_hash(v: i64) -> (h: u64)
    ensures
        h == bloom_hash_of(v),
{
    let mut h: u64 = HASH64_BASIS;
    let mut i: u32 = 0;
    while i < 8
        invariant
            i <= 8,
            h == hash64_value(HASH64_BASIS, v, i),
        decreases 8 - i,
    {
        let byte: u8 = (((v as u64) >> ((8 * i) as u64)) & 0xff) as u8;
        h = (h ^ (byte as u64)).wrapping_mul(HASH64_PRIME);
        i += 1;
    }
    h
}

/// Carries a 128-bit digest on over the bytes of one value.
pub fn digest_value(h: u128, v: i64) -> (r: u128)
    ensures
        r == hash128_value(h, v, 8),
{
    let mut r: u128 = h;
    let mut i: u32 = 0;
    while i < 8
        invariant
            i <= 8,
            r == hash128_value(h, v, i),
        decreases 8 - i,
    {
        let byte: u8 = (((v as u64) >> ((8 * i) as u64)) & 0xff) as u8;
        r = (r ^ (byte as u128)).wrapping_mul(HASH128_PRIME);
        i += 1;
    }
    r
}

/// Computes the content digest of a row's key from the values of its key
/// columns.
pub fn key_digest(values: &Vec<i64>) -> (d: u128)
    ensures
        d == key_digest_of(values@),
{
    let mut d: u128 = HASH128_BASIS;
    let mut i: usize = 0;
    while i < values.len()
        invariant
            i <= values.len(),
            d == hash128_values(HASH128_BASIS, values@.take(i as int)),
        decreases values.len() - i,
    {
        d = digest_value(d, values[i]);
        proof {
            assert(values@.take(i + 1).drop_last() =~= values@.take(i as int));
        }
        i += 1;
    }
    assert(values@.take(values.len() as int) =~= values@);
    d
}

} // verus!
