//! The settings that reading and writing of every format share.

use vstd::prelude::*;

verus! {

/// How bytes are written as text.
#[derive(Debug, Clone, Copy, PartialEq, Eq, Structural)]
pub enum BinaryFormat {
    Hex,
    Base64,
}

/// How shapes are written.
#[derive(Debug, Clone, Copy, PartialEq, Eq, Structural)]
pub enum GeometryDataType {
    Wkb,
    Wkt,
    Ewkb,
    Ewkt,
    Geojson,
}

/// The settings of reading.
pub struct InputCommonSettings {
    pub true_bytes: Vec<u8>,
    pub false_bytes: Vec<u8>,
    pub null_if: Vec<Vec<u8>>,
    pub timezone: chrono_tz::Tz,
    pub jiff_timezone: jiff::tz::TimeZone,
    pub disable_variant_check: bool,
    pub binary_format: BinaryFormat,
    pub is_rounding_mode: bool,
    pub enable_dst_hour_fix: bool,
}

/// The settings of writing.
pub struct OutputCommonSettings {
    pub true_bytes: Vec<u8>,
    pub false_bytes: Vec<u8>,
    pub null_bytes: Vec<u8>,
    pub nan_bytes: Vec<u8>,
    pub inf_bytes: Vec<u8>,
    pub timezone: chrono_tz::Tz,
    pub jiff_timezone: jiff::tz::TimeZone,
    pub binary_format: BinaryFormat,
    pub geometry_format: GeometryDataType,
}

impl InputCommonSettings {
    /// Whether `bytes` are one of the texts that stand for no value.
    pub open spec fn is_null_text(&self, bytes: Seq<u8>) -> bool {
        exists|i: int| 0 <= i < self.null_if@.len() && (#[trigger] self.null_if@[i])@ == bytes
    }

    /// Whether `bytes` are one of the texts that stand for no value.
    pub fn is_null(&self, bytes: &[u8]) -> (r: bool)
        ensures
            r == self.is_null_text(bytes@),
    {
        let mut i: usize = 0;
        while i < self.null_if.len()
            invariant
                i <= self.null_if.len(),
                forall|j: int| 0 <= j < i ==> (#[trigger] self.null_if@[j])@ != bytes@,
            decreases self.null_if.len() - i,
        {
            if same_bytes(self.null_if[i].as_slice(), bytes) {
                return true;
            }
            i += 1;
        }
        false
    }
}

/// Whether two texts are the same bytes.
pub fn same_bytes(a: &[u8], b: &[u8]) -> (r: bool)
    ensures
        r == (a@ == b@),
{
    if a.len() != b.len() {
        return false;
    }
    let mut i: usize = 0;
    while i < a.len()
        invariant
            i <= a.len(),
            a@.len() == b@.len(),
            forall|j: int| 0 <= j < i ==> a@[j] == b@[j],
        decreases a.len() - i,
    {
        if a[i] != b[i] {
            return false;
        }
        i += 1;
    }
    assert(a@ =~= b@);
    true
}

} // verus!
