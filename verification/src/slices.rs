//! Parts of slices.

use vstd::prelude::*;

verus! {

/// The part of `bytes` from `from` up to `to`.
pub fn bytes_between(bytes: &[u8], from: usize, to: usize) -> (r: &[u8])
    requires
        from <= to <= bytes@.len(),
    ensures
        r@ == bytes@.subrange(from as int, to as int),
{
    let (head, _) = bytes.split_at(to);
    let (_, part) = head.split_at(from);
    part
}

/// The part of `bytes` from `from` on.
pub fn bytes_from(bytes: &[u8], from: usize) -> (r: &[u8])
    requires
        from <= bytes@.len(),
    ensures
        r@ == bytes@.subrange(from as int, bytes@.len() as int),
{
    let (_, rest) = bytes.split_at(from);
    rest
}

/// The part of `array` from `from` up to `to`.
pub fn words_between(array: &Vec<u32>, from: usize, to: usize) -> (r: &[u32])
    requires
        from <= to <= array@.len(),
    ensures
        r@ == array@.subrange(from as int, to as int),
{
    let all = array.as_slice();
    let (head, _) = all.split_at(to);
    let (_, part) = head.split_at(from);
    part
}

} // verus!
