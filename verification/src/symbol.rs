//! Symbols of a loaded library: a name and the addresses that it covers.

use std::cmp::Ordering;
use vstd::prelude::*;

verus! {

/// A symbol: its name as it stands in the library, and where it begins and
/// ends.
pub struct Symbol {
    pub name: &'static [u8],
    pub address_end: u64,
    pub address_begin: u64,
}

impl Symbol {
    /// Orders two symbols by where they begin.
    pub fn sort_begin_address(&self, other: &Self) -> (r: Ordering)
        ensures
            (r is Less) == (self.address_begin < other.address_begin),
            (r is Equal) == (self.address_begin == other.address_begin),
            (r is Greater) == (self.address_begin > other.address_begin),
    {
        if self.address_begin < other.address_begin {
            Ordering::Less
        } else if self.address_begin > other.address_begin {
            Ordering::Greater
        } else {
            Ordering::Equal
        }
    }

    /// Whether two symbols cover the same addresses. Neither is changed.
    pub fn same_address(&mut self, other: &mut Self) -> (r: bool)
        ensures
            r == (old(self).address_begin == old(other).address_begin && old(self).address_end
                == old(other).address_end),
            *final(self) == *old(self),
            *final(other) == *old(other),
    {
        self.address_begin == other.address_begin && self.address_end == other.address_end
    }
}

} // verus!
