//! Searching a byte buffer for the first byte that is (or is not) one of up
//! to sixteen given bytes.

use vstd::prelude::*;

verus! {

/// Whether `b` belongs to the byte set `c1..c16`. The first member always
/// counts; each of the others counts only when it is not zero, so that a zero
/// fills the unused places of a shorter set.
pub open spec fn in_byte_set(
    b: u8,
    c1: u8,
    c2: u8,
    c3: u8,
    c4: u8,
    c5: u8,
    c6: u8,
    c7: u8,
    c8: u8,
    c9: u8,
    c10: u8,
    c11: u8,
    c12: u8,
    c13: u8,
    c14: u8,
    c15: u8,
    c16: u8,
) -> bool {
    b == c1 || (c2 != 0 && b == c2) || (c3 != 0 && b == c3) || (c4 != 0 && b == c4) || (c5 != 0
        && b == c5) || (c6 != 0 && b == c6) || (c7 != 0 && b == c7) || (c8 != 0 && b == c8) || (c9
        != 0 && b == c9) || (c10 != 0 && b == c10) || (c11 != 0 && b == c11) || (c12 != 0 && b
        == c12) || (c13 != 0 && b == c13) || (c14 != 0 && b == c14) || (c15 != 0 && b == c15) || (
    c16 != 0 && b == c16)
}

/// Whether the byte at `i` stops a search: with `positive` a member of the
/// set stops it, without `positive` a byte outside the set does.
pub open spec fn stops_at(
    buf: Seq<u8>,
    i: int,
    positive: bool,
    c1: u8,
    c2: u8,
    c3: u8,
    c4: u8,
    c5: u8,
    c6: u8,
    c7: u8,
    c8: u8,
    c9: u8,
    c10: u8,
    c11: u8,
    c12: u8,
    c13: u8,
    c14: u8,
    c15: u8,
    c16: u8,
) -> bool {
    positive == in_byte_set(
        buf[i],
        c1,
        c2,
        c3,
        c4,
        c5,
        c6,
        c7,
        c8,
        c9,
        c10,
        c11,
        c12,
        c13,
        c14,
        c15,
        c16,
    )
}

/// `r` is where a search of `buf` from `begin` ends: the first index at or
/// after `begin` whose byte stops the search, or the end of the buffer (or
/// `begin` itself, when that lies beyond the end) when no byte does.
pub open spec fn is_first_stop(
    buf: Seq<u8>,
    begin: int,
    r: int,
    positive: bool,
    c1: u8,
    c2: u8,
    c3: u8,
    c4: u8,
    c5: u8,
    c6: u8,
    c7: u8,
    c8: u8,
    c9: u8,
    c10: u8,
    c11: u8,
    c12: u8,
    c13: u8,
    c14: u8,
    c15: u8,
    c16: u8,
) -> bool {
    &&& begin <= r
    &&& r <= buf.len() || r == begin
    &&& r < buf.len() ==> stops_at(
        buf,
        r,
        positive,
        c1,
        c2,
        c3,
        c4,
        c5,
        c6,
        c7,
        c8,
        c9,
        c10,
        c11,
        c12,
        c13,
        c14,
        c15,
        c16,
    )
    &&& forall|i: int|
        begin <= i < r ==> !#[trigger] stops_at(
            buf,
            i,
            positive,
            c1,
            c2,
            c3,
            c4,
            c5,
            c6,
            c7,
            c8,
            c9,
            c10,
            c11,
            c12,
            c13,
            c14,
            c15,
            c16,
        )
}

/// The first index of `buf` whose byte stops a search over a set of one
/// byte, or `buf.len()` when none does.
pub fn position1<const POSITIVE: bool, const C1: u8>(buf: &[u8]) -> (r: usize)
    ensures
        is_first_stop(buf@, 0, r as int, POSITIVE, C1, 0, 0, 0, 0, 0, 0, 0, 0, 0, 0, 0, 0, 0, 0, 0),
{
    position16::<POSITIVE, C1, 0, 0, 0, 0, 0, 0, 0, 0, 0, 0, 0, 0, 0, 0, 0>(buf)
}

/// The first index of `buf` whose byte stops a search over a set of two
/// bytes, or `buf.len()` when none does.
pub fn position2<const POSITIVE: bool, const C1: u8, const C2: u8>(buf: &[u8]) -> (r: usize)
    ensures
        is_first_stop(buf@, 0, r as int, POSITIVE, C1, C2, 0, 0, 0, 0, 0, 0, 0, 0, 0, 0, 0, 0, 0, 0),
{
    position16::<POSITIVE, C1, C2, 0, 0, 0, 0, 0, 0, 0, 0, 0, 0, 0, 0, 0, 0>(buf)
}

/// The first index of `buf` whose byte stops a search over a set of three
/// bytes, or `buf.len()` when none does.
pub fn position3<const POSITIVE: bool, const C1: u8, const C2: u8, const C3: u8>(buf: &[u8]) -> (r: usize)
    ensures
        is_first_stop(buf@, 0, r as int, POSITIVE, C1, C2, C3, 0, 0, 0, 0, 0, 0, 0, 0, 0, 0, 0, 0, 0),
{
    position16::<POSITIVE, C1, C2, C3, 0, 0, 0, 0, 0, 0, 0, 0, 0, 0, 0, 0, 0>(buf)
}

/// The first index of `buf` whose byte stops a search over a set of four
/// bytes, or `buf.len()` when none does.
pub fn position4<const POSITIVE: bool, const C1: u8, const C2: u8, const C3: u8, const C4: u8>(buf: &[u8]) -> (r: usize)
    ensures
        is_first_stop(buf@, 0, r as int, POSITIVE, C1, C2, C3, C4, 0, 0, 0, 0, 0, 0, 0, 0, 0, 0, 0, 0),
{
    position16::<POSITIVE, C1, C2, C3, C4, 0, 0, 0, 0, 0, 0, 0, 0, 0, 0, 0, 0>(buf)
}

/// The first index of `buf` whose byte stops a search over a set of five
/// bytes, or `buf.len()` when none does.
pub fn position5<const POSITIVE: bool, const C1: u8, const C2: u8, const C3: u8, const C4: u8, const C5: u8>(buf: &[u8]) -> (r: usize)
    ensures
        is_first_stop(buf@, 0, r as int, POSITIVE, C1, C2, C3, C4, C5, 0, 0, 0, 0, 0, 0, 0, 0, 0, 0, 0),
{
    position16::<POSITIVE, C1, C2, C3, C4, C5, 0, 0, 0, 0, 0, 0, 0, 0, 0, 0, 0>(buf)
}

/// The first index of `buf` whose byte stops a search over a set of six
/// bytes, or `buf.len()` when none does.
pub fn position6<const POSITIVE: bool, const C1: u8, const C2: u8, const C3: u8, const C4: u8, const C5: u8, const C6: u8>(buf: &[u8]) -> (r: usize)
    ensures
        is_first_stop(buf@, 0, r as int, POSITIVE, C1, C2, C3, C4, C5, C6, 0, 0, 0, 0, 0, 0, 0, 0, 0, 0),
{
    position16::<POSITIVE, C1, C2, C3, C4, C5, C6, 0, 0, 0, 0, 0, 0, 0, 0, 0, 0>(buf)
}

/// The first index of `buf` whose byte stops a search over a set of seven
/// bytes, or `buf.len()` when none does.
pub fn position7<const POSITIVE: bool, const C1: u8, const C2: u8, const C3: u8, const C4: u8, const C5: u8, const C6: u8, const C7: u8>(buf: &[u8]) -> (r: usize)
    ensures
        is_first_stop(buf@, 0, r as int, POSITIVE, C1, C2, C3, C4, C5, C6, C7, 0, 0, 0, 0, 0, 0, 0, 0, 0),
{
    position16::<POSITIVE, C1, C2, C3, C4, C5, C6, C7, 0, 0, 0, 0, 0, 0, 0, 0, 0>(buf)
}

/// The first index of `buf` whose byte stops a search over a set of eight
/// bytes, or `buf.len()` when none does.
pub fn position8<const POSITIVE: bool, const C1: u8, const C2: u8, const C3: u8, const C4: u8, const C5: u8, const C6: u8, const C7: u8, const C8: u8>(buf: &[u8]) -> (r: usize)
    ensures
        is_first_stop(buf@, 0, r as int, POSITIVE, C1, C2, C3, C4, C5, C6, C7, C8, 0, 0, 0, 0, 0, 0, 0, 0),
{
    position16::<POSITIVE, C1, C2, C3, C4, C5, C6, C7, C8, 0, 0, 0, 0, 0, 0, 0, 0>(buf)
}

/// The first index of `buf` whose byte stops a search over a set of nine
/// bytes, or `buf.len()` when none does.
pub fn position9<const POSITIVE: bool, const C1: u8, const C2: u8, const C3: u8, const C4: u8, const C5: u8, const C6: u8, const C7: u8, const C8: u8, const C9: u8>(buf: &[u8]) -> (r: usize)
    ensures
        is_first_stop(buf@, 0, r as int, POSITIVE, C1, C2, C3, C4, C5, C6, C7, C8, C9, 0, 0, 0, 0, 0, 0, 0),
{
    position16::<POSITIVE, C1, C2, C3, C4, C5, C6, C7, C8, C9, 0, 0, 0, 0, 0, 0, 0>(buf)
}

/// The first index of `buf` whose byte stops a search over a set of ten
/// bytes, or `buf.len()` when none does.
pub fn position10<const POSITIVE: bool, const C1: u8, const C2: u8, const C3: u8, const C4: u8, const C5: u8, const C6: u8, const C7: u8, const C8: u8, const C9: u8, const C10: u8>(buf: &[u8]) -> (r: usize)
    ensures
        is_first_stop(buf@, 0, r as int, POSITIVE, C1, C2, C3, C4, C5, C6, C7, C8, C9, C10, 0, 0, 0, 0, 0, 0),
{
    position16::<POSITIVE, C1, C2, C3, C4, C5, C6, C7, C8, C9, C10, 0, 0, 0, 0, 0, 0>(buf)
}

/// The first index of `buf` whose byte stops a search over a set of eleven
/// bytes, or `buf.len()` when none does.
pub fn position11<const POSITIVE: bool, const C1: u8, const C2: u8, const C3: u8, const C4: u8, const C5: u8, const C6: u8, const C7: u8, const C8: u8, const C9: u8, const C10: u8, const C11: u8>(buf: &[u8]) -> (r: usize)
    ensures
        is_first_stop(buf@, 0, r as int, POSITIVE, C1, C2, C3, C4, C5, C6, C7, C8, C9, C10, C11, 0, 0, 0, 0, 0),
{
    position16::<POSITIVE, C1, C2, C3, C4, C5, C6, C7, C8, C9, C10, C11, 0, 0, 0, 0, 0>(buf)
}

/// The first index of `buf` whose byte stops a search over a set of twelve
/// bytes, or `buf.len()` when none does.
pub fn position12<const POSITIVE: bool, const C1: u8, const C2: u8, const C3: u8, const C4: u8, const C5: u8, const C6: u8, const C7: u8, const C8: u8, const C9: u8, const C10: u8, const C11: u8, const C12: u8>(buf: &[u8]) -> (r: usize)
    ensures
        is_first_stop(buf@, 0, r as int, POSITIVE, C1, C2, C3, C4, C5, C6, C7, C8, C9, C10, C11, C12, 0, 0, 0, 0),
{
    position16::<POSITIVE, C1, C2, C3, C4, C5, C6, C7, C8, C9, C10, C11, C12, 0, 0, 0, 0>(buf)
}

/// The first index of `buf` whose byte stops a search over a set of thirteen
/// bytes, or `buf.len()` when none does.
pub fn position13<const POSITIVE: bool, const C1: u8, const C2: u8, const C3: u8, const C4: u8, const C5: u8, const C6: u8, const C7: u8, const C8: u8, const C9: u8, const C10: u8, const C11: u8, const C12: u8, const C13: u8>(buf: &[u8]) -> (r: usize)
    ensures
        is_first_stop(buf@, 0, r as int, POSITIVE, C1, C2, C3, C4, C5, C6, C7, C8, C9, C10, C11, C12, C13, 0, 0, 0),
{
    position16::<POSITIVE, C1, C2, C3, C4, C5, C6, C7, C8, C9, C10, C11, C12, C13, 0, 0, 0>(buf)
}

/// The first index of `buf` whose byte stops a search over a set of fourteen
/// bytes, or `buf.len()` when none does.
pub fn position14<const POSITIVE: bool, const C1: u8, const C2: u8, const C3: u8, const C4: u8, const C5: u8, const C6: u8, const C7: u8, const C8: u8, const C9: u8, const C10: u8, const C11: u8, const C12: u8, const C13: u8, const C14: u8>(buf: &[u8]) -> (r: usize)
    ensures
        is_first_stop(buf@, 0, r as int, POSITIVE, C1, C2, C3, C4, C5, C6, C7, C8, C9, C10, C11, C12, C13, C14, 0, 0),
{
    position16::<POSITIVE, C1, C2, C3, C4, C5, C6, C7, C8, C9, C10, C11, C12, C13, C14, 0, 0>(buf)
}

/// The first index of `buf` whose byte stops a search over a set of fifteen
/// bytes, or `buf.len()` when none does.
pub fn position15<const POSITIVE: bool, const C1: u8, const C2: u8, const C3: u8, const C4: u8, const C5: u8, const C6: u8, const C7: u8, const C8: u8, const C9: u8, const C10: u8, const C11: u8, const C12: u8, const C13: u8, const C14: u8, const C15: u8>(buf: &[u8]) -> (r: usize)
    ensures
        is_first_stop(buf@, 0, r as int, POSITIVE, C1, C2, C3, C4, C5, C6, C7, C8, C9, C10, C11, C12, C13, C14, C15, 0),
{
    position16::<POSITIVE, C1, C2, C3, C4, C5, C6, C7, C8, C9, C10, C11, C12, C13, C14, C15, 0>(buf)
}

/// The first index of `buf` whose byte stops a search over a set of up to
/// sixteen bytes, or `buf.len()` when none does.
pub fn position16<const POSITIVE: bool, const C1: u8, const C2: u8, const C3: u8, const C4: u8, const C5: u8, const C6: u8, const C7: u8, const C8: u8, const C9: u8, const C10: u8, const C11: u8, const C12: u8, const C13: u8, const C14: u8, const C15: u8, const C16: u8>(buf: &[u8]) -> (r: usize)
    ensures
        is_first_stop(buf@, 0, r as int, POSITIVE, C1, C2, C3, C4, C5, C6, C7, C8, C9, C10, C11, C12, C13, C14, C15, C16),
{
    position16_from_index::<POSITIVE, C1, C2, C3, C4, C5, C6, C7, C8, C9, C10, C11, C12, C13, C14, C15, C16>(buf, 0)
}

/// The search of `position16`, started at `begin` instead of at the front.
fn position16_from_index<const POSITIVE: bool, const C1: u8, const C2: u8, const C3: u8, const C4: u8, const C5: u8, const C6: u8, const C7: u8, const C8: u8, const C9: u8, const C10: u8, const C11: u8, const C12: u8, const C13: u8, const C14: u8, const C15: u8, const C16: u8>(buf: &[u8], begin: usize) -> (r: usize)
    ensures
        is_first_stop(buf@, begin as int, r as int, POSITIVE, C1, C2, C3, C4, C5, C6, C7, C8, C9, C10, C11, C12, C13, C14, C15, C16),
{
    let mut index: usize = begin;
    while index < buf.len()
        invariant
            begin <= index,
            index <= buf.len() || index == begin,
            forall|i: int|
                begin <= i < index ==> !#[trigger] stops_at(buf@, i, POSITIVE, C1, C2, C3, C4, C5, C6, C7, C8, C9, C10, C11, C12, C13, C14, C15, C16),
        decreases buf.len() - index,
    {
        let b: u8 = buf[index];
        if POSITIVE == (b == C1 || (C2 != 0 && b == C2) || (C3 != 0 && b == C3) || (C4 != 0 && b
            == C4) || (C5 != 0 && b == C5) || (C6 != 0 && b == C6) || (C7 != 0 && b == C7) || (C8
            != 0 && b == C8) || (C9 != 0 && b == C9) || (C10 != 0 && b == C10) || (C11 != 0 && b
            == C11) || (C12 != 0 && b == C12) || (C13 != 0 && b == C13) || (C14 != 0 && b == C14)
            || (C15 != 0 && b == C15) || (C16 != 0 && b == C16)) {
            return index;
        }
        index += 1;
    }
    index
}

} // verus!
