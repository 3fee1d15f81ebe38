//! Conditions on the sequence number of a stored value, by which a write
//! takes effect or not.

use vstd::prelude::*;
use vstd::string::*;
use crate::text::{decimal, u64_to_decimal};

verus! {

/// Describes what `seq` an operation must match to take effect.
/// Every value written to meta data has a unique `seq` bound.
/// Any conditioned or non-conditioned write operation can be done through
/// the corresponding `MatchSeq`.
#[derive(Debug, Copy, Clone, PartialEq, Eq, Structural)]
pub enum MatchSeq {
    /// Any value is acceptable, i.e. does not check seq at all.
    Any,
    /// To match an exact value of seq.
    /// E.g., CAS updates the exact version of some value,
    /// and put-if-absent adds a value only when seq is 0.
    Exact(u64),
    /// To match a seq that is greater-or-equal some value.
    /// E.g., GE(1) perform an update on any existent value.
    GE(u64),
}

/// Why a sequence number does not meet a condition.
#[derive(Debug, Copy, Clone, PartialEq, Eq, Structural)]
pub enum ConflictSeq {
    NotMatch { want: MatchSeq, got: u64 },
}

/// A stored value with its sequence number.
#[derive(Debug, Clone, PartialEq, Eq)]
pub struct SeqV<T = Vec<u8>> {
    pub seq: u64,
    pub data: T,
}

impl<T> SeqV<T> {
    /// The value `data` at sequence number `seq`.
    pub fn new(seq: u64, data: T) -> (r: Self)
        ensures
            r.seq == seq,
            r.data == data,
    {
        SeqV { seq, data }
    }
}

/// A stored value as it goes over the wire.
#[derive(Debug, Clone, PartialEq, Eq)]
pub struct PbSeqV {
    pub seq: u64,
    pub data: Vec<u8>,
}

impl MatchSeq {
    /// Whether the sequence number `seq` meets the condition.
    pub open spec fn accepts(self, seq: u64) -> bool {
        match self {
            MatchSeq::Any => true,
            MatchSeq::Exact(s) => seq == s,
            MatchSeq::GE(s) => seq >= s,
        }
    }

    /// What matching `seq` against the condition gives.
    pub open spec fn match_result(self, seq: u64) -> Result<(), ConflictSeq> {
        if self.accepts(seq) {
            Ok(())
        } else {
            Err(ConflictSeq::NotMatch { want: self, got: seq })
        }
    }

    /// The condition in words.
    pub open spec fn display(self) -> Seq<char> {
        match self {
            MatchSeq::Any => "is any value"@,
            MatchSeq::Exact(s) => "== "@ + decimal(s as nat),
            MatchSeq::GE(s) => ">= "@ + decimal(s as nat),
        }
    }

    /// Writes the condition in words.
    pub fn to_string(&self) -> (r: String)
        ensures
            r@ == self.display(),
    {
        match self {
            MatchSeq::Any => String::from_str("is any value"),
            MatchSeq::Exact(s) => {
                let mut r = String::from_str("== ");
                r.append(u64_to_decimal(*s).as_str());
                r
            },
            MatchSeq::GE(s) => {
                let mut r = String::from_str(">= ");
                r.append(u64_to_decimal(*s).as_str());
                r
            },
        }
    }
}

/// Matching something that has a sequence number against a condition.
pub trait MatchSeqExt<T> {
    /// The condition that `self` stands for.
    spec fn condition(&self) -> MatchSeq;

    /// The sequence number of `sv`; that of nothing is zero.
    spec fn seq_of(sv: T) -> u64;

    /// Match against a some value containing seq by checking if the seq
    /// satisfies the condition.
    fn match_seq(&self, sv: T) -> (r: Result<(), ConflictSeq>)
        ensures
            r == self.condition().match_result(Self::seq_of(sv)),
    ;
}

impl<U> MatchSeqExt<&Option<SeqV<U>>> for MatchSeq {
    open spec fn condition(&self) -> MatchSeq {
        *self
    }

    open spec fn seq_of(sv: &Option<SeqV<U>>) -> u64 {
        match *sv {
            Some(v) => v.seq,
            None => 0,
        }
    }

    fn match_seq(&self, sv: &Option<SeqV<U>>) -> (r: Result<(), ConflictSeq>) {
        let seq: u64 = match sv {
            Some(v) => v.seq,
            None => 0,
        };
        self.match_seq(seq)
    }
}

impl MatchSeqExt<&Option<PbSeqV>> for MatchSeq {
    open spec fn condition(&self) -> MatchSeq {
        *self
    }

    open spec fn seq_of(sv: &Option<PbSeqV>) -> u64 {
        match *sv {
            Some(v) => v.seq,
            None => 0,
        }
    }

    fn match_seq(&self, sv: &Option<PbSeqV>) -> (r: Result<(), ConflictSeq>) {
        let seq: u64 = match sv {
            Some(v) => v.seq,
            None => 0,
        };
        self.match_seq(seq)
    }
}

impl<U> MatchSeqExt<&SeqV<U>> for MatchSeq {
    open spec fn condition(&self) -> MatchSeq {
        *self
    }

    open spec fn seq_of(sv: &SeqV<U>) -> u64 {
        sv.seq
    }

    fn match_seq(&self, sv: &SeqV<U>) -> (r: Result<(), ConflictSeq>) {
        let seq: u64 = sv.seq;
        self.match_seq(seq)
    }
}

impl MatchSeqExt<u64> for MatchSeq {
    open spec fn condition(&self) -> MatchSeq {
        *self
    }

    open spec fn seq_of(sv: u64) -> u64 {
        sv
    }

    fn match_seq(&self, seq: u64) -> (r: Result<(), ConflictSeq>) {
        match self {
            MatchSeq::Any => Ok(()),
            MatchSeq::Exact(s) if seq == *s => Ok(()),
            MatchSeq::GE(s) if seq >= *s => Ok(()),
            _ => Err(ConflictSeq::NotMatch { want: *self, got: seq }),
        }
    }
}

/// `Any` asks for nothing that `GE(0)` does not ask for.
pub proof fn lemma_any_is_ge_zero(seq: u64)
    ensures
        MatchSeq::Any.accepts(seq) == MatchSeq::GE(0).accepts(seq),
{
}

} // verus!
