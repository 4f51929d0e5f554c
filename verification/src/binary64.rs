//! IEEE 754 binary64 numbers, held by their bit patterns.
//!
//! The colour engine stores, orders and compares such numbers but never does
//! arithmetic on them: sums and means are computed by the caller and handed in.
//! Ordering two numbers needs nothing but their bits, and that is all this
//! module offers.

use vstd::prelude::*;

verus! {

/// The bit that holds the sign.
pub const SIGN_BIT: u64 = 0x8000_0000_0000_0000;

/// The bit pattern of positive infinity. Every pattern whose magnitude is
/// greater is not a number.
pub const INFINITY_BITS: u64 = 0x7ff0_0000_0000_0000;

/// The bit pattern of `0.0`.
pub const ZERO_BITS: u64 = 0;

/// The bit pattern of `0.1`, that is of the binary64 number nearest to one tenth.
pub const TENTH_BITS: u64 = 0x3fb9_9999_9999_999a;

/// The bit pattern of `1.0`.
pub const ONE_BITS: u64 = 0x3ff0_0000_0000_0000;

/// A binary64 number: one sign bit, eleven exponent bits, fifty-two fraction
/// bits, from the most significant bit down.
#[derive(Clone, Copy, Debug, PartialEq, Eq, Structural)]
pub struct Binary64 {
    pub bits: u64,
}

impl Binary64 {
    /// The bits without the sign.
    pub open spec fn magnitude(self) -> u64 {
        if self.bits >= SIGN_BIT {
            (self.bits - SIGN_BIT) as u64
        } else {
            self.bits
        }
    }

    /// Whether the sign bit is set.
    pub open spec fn is_negative(self) -> bool {
        self.bits >= SIGN_BIT
    }

    /// Whether the pattern encodes no number.
    pub open spec fn spec_is_nan(self) -> bool {
        self.magnitude() > INFINITY_BITS
    }

    /// The place of a number on the number line: of two patterns that both
    /// encode numbers, the one with the smaller rank encodes the smaller
    /// number, and equal ranks encode equal numbers. Both zeros have rank 0.
    pub open spec fn rank(self) -> int {
        if self.is_negative() {
            -(self.magnitude() as int)
        } else {
            self.magnitude() as int
        }
    }

    /// `self < other` as binary64 defines it: false when either is not a number.
    pub open spec fn spec_lt(self, other: Binary64) -> bool {
        !self.spec_is_nan() && !other.spec_is_nan() && self.rank() < other.rank()
    }

    /// `self <= other` as binary64 defines it: false when either is not a number.
    pub open spec fn spec_le(self, other: Binary64) -> bool {
        !self.spec_is_nan() && !other.spec_is_nan() && self.rank() <= other.rank()
    }

    /// `self == other` as binary64 defines it: the two zeros are equal, and
    /// what is not a number equals nothing, not even itself.
    pub open spec fn spec_equals(self, other: Binary64) -> bool {
        !self.spec_is_nan() && !other.spec_is_nan() && self.rank() == other.rank()
    }

    /// The greater of `self` and `floor`, where a `self` that is not a number
    /// counts as absent.
    pub open spec fn spec_at_least(self, floor: Binary64) -> Binary64 {
        if self.spec_is_nan() || self.spec_lt(floor) {
            floor
        } else {
            self
        }
    }

    /// `self` brought into `[low, high]`. What is not a number stays so.
    pub open spec fn spec_clamp(self, low: Binary64, high: Binary64) -> Binary64 {
        if self.spec_lt(low) {
            low
        } else if high.spec_lt(self) {
            high
        } else {
            self
        }
    }

    /// The number with the given bit pattern.
    pub fn from_bits(bits: u64) -> (r: Binary64)
        ensures
            r.bits == bits,
    {
        Binary64 { bits }
    }

    /// The bit pattern.
    pub fn to_bits(self) -> (r: u64)
        ensures
            r == self.bits,
    {
        self.bits
    }

    /// `0.0`.
    pub fn zero() -> (r: Binary64)
        ensures
            r.bits == ZERO_BITS,
    {
        Binary64 { bits: ZERO_BITS }
    }

    /// `0.1`.
    pub fn tenth() -> (r: Binary64)
        ensures
            r.bits == TENTH_BITS,
    {
        Binary64 { bits: TENTH_BITS }
    }

    /// `1.0`.
    pub fn one() -> (r: Binary64)
        ensures
            r.bits == ONE_BITS,
    {
        Binary64 { bits: ONE_BITS }
    }

    #[verifier::when_used_as_spec(spec_is_nan)]
    pub fn is_nan(self) -> (r: bool)
        ensures
            r == self.spec_is_nan(),
    {
        let magnitude: u64 = if self.bits >= SIGN_BIT {
            self.bits - SIGN_BIT
        } else {
            self.bits
        };
        magnitude > INFINITY_BITS
    }

    fn exec_rank(self) -> (r: i128)
        ensures
            r == self.rank(),
    {
        if self.bits >= SIGN_BIT {
            let magnitude: u64 = self.bits - SIGN_BIT;
            -(magnitude as i128)
        } else {
            self.bits as i128
        }
    }

    #[verifier::when_used_as_spec(spec_lt)]
    pub fn lt(self, other: Binary64) -> (r: bool)
        ensures
            r == self.spec_lt(other),
    {
        !self.is_nan() && !other.is_nan() && self.exec_rank() < other.exec_rank()
    }

    #[verifier::when_used_as_spec(spec_le)]
    pub fn le(self, other: Binary64) -> (r: bool)
        ensures
            r == self.spec_le(other),
    {
        !self.is_nan() && !other.is_nan() && self.exec_rank() <= other.exec_rank()
    }

    #[verifier::when_used_as_spec(spec_equals)]
    pub fn equals(self, other: Binary64) -> (r: bool)
        ensures
            r == self.spec_equals(other),
    {
        !self.is_nan() && !other.is_nan() && self.exec_rank() == other.exec_rank()
    }

    #[verifier::when_used_as_spec(spec_at_least)]
    pub fn at_least(self, floor: Binary64) -> (r: Binary64)
        ensures
            r == self.spec_at_least(floor),
    {
        if self.is_nan() || self.lt(floor) {
            floor
        } else {
            self
        }
    }

    #[verifier::when_used_as_spec(spec_clamp)]
    pub fn clamp(self, low: Binary64, high: Binary64) -> (r: Binary64)
        ensures
            r == self.spec_clamp(low, high),
    {
        if self.lt(low) {
            low
        } else if high.lt(self) {
            high
        } else {
            self
        }
    }
}

} // verus!
