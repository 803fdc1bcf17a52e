//! 64-bit IEEE-754 values carried by their bit pattern, and the equality under
//! which the layout views count such a value as unchanged.
use vstd::prelude::*;

verus! {

/// Mask that clears the sign bit of a 64-bit IEEE-754 pattern.
pub const MAGNITUDE_MASK: u64 = 0x7fff_ffff_ffff_ffff;

/// Pattern of `1.0`.
pub const ONE_BITS: u64 = 0x3ff0_0000_0000_0000;

/// A 64-bit IEEE-754 value, held as its bit pattern.
#[derive(Clone, Copy, Debug, PartialEq, Eq)]
pub struct F64Bits {
    pub bits: u64,
}

/// The pattern encodes `+0.0` or `-0.0`.
pub open spec fn is_zero_bits(bits: u64) -> bool {
    (bits & MAGNITUDE_MASK) == 0
}

/// The two patterns hold the same value: they are the same pattern, or both
/// are zeros. A NaN thus equals the same NaN, so a NaN that stays in place
/// counts as unchanged, while `0.0` and `-0.0` are one value.
pub open spec fn value_eq(a: u64, b: u64) -> bool {
    a == b || (is_zero_bits(a) && is_zero_bits(b))
}

impl F64Bits {
    /// The value `0.0`.
    pub fn zero() -> (r: F64Bits)
        ensures
            r.bits == 0,
    {
        F64Bits { bits: 0 }
    }

    /// The value `1.0`.
    pub fn one() -> (r: F64Bits)
        ensures
            r.bits == ONE_BITS,
    {
        F64Bits { bits: ONE_BITS }
    }

    /// Whether the two hold the same value.
    pub fn same_value(&self, other: &F64Bits) -> (r: bool)
        ensures
            r == value_eq(self.bits, other.bits),
    {
        self.bits == other.bits || ((self.bits & MAGNITUDE_MASK) == 0 && (other.bits
            & MAGNITUDE_MASK) == 0)
    }
}

/// Holding the same value is an equivalence: reflexive on every pattern, NaN
/// included, symmetric and transitive.
pub proof fn value_eq_is_equivalence(a: u64, b: u64, c: u64)
    ensures
        value_eq(a, a),
        value_eq(a, b) == value_eq(b, a),
        value_eq(a, b) && value_eq(b, c) ==> value_eq(a, c),
{
}

} // verus!
