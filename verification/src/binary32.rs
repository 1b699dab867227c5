//! IEEE 754 binary32 values, held as their 32-bit patterns.
//!
//! Every sample, coefficient and level of the signal path is a `Binary32`.
//! The type carries the pattern as an integer, so that classification,
//! ordering and (in the arithmetic module) correctly rounded arithmetic are
//! integer computations with exact contracts.
use vstd::arithmetic::power2::*;
use vstd::prelude::*;

verus! {

/// Pattern of the sign bit.
pub const SIGN_BIT: u32 = 0x8000_0000;

/// Pattern (sign removed) of infinity; every larger pattern is a NaN.
pub const INFINITY_PATTERN: u32 = 0x7f80_0000;

/// Pattern of the quiet NaN that every invalid operation returns.
pub const QUIET_NAN_PATTERN: u32 = 0x7fc0_0000;

/// A binary32 value: 1 sign bit, 8 exponent bits, 23 fraction bits.
#[derive(Clone, Copy, Debug, PartialEq, Eq, Structural)]
pub struct Binary32 {
    pub bits: u32,
}

/// Magnitude of the finite value with pattern `p` (sign removed), counted in
/// units of 2^-149, the smallest positive binary32 value. Also defined at
/// the pattern of infinity, where it is 2^277: the value that the next
/// exponent would have.
pub open spec fn pattern_magnitude(p: nat) -> nat {
    if p < 0x100_0000 {
        p
    } else {
        (0x80_0000 + p % 0x80_0000) * pow2((p / 0x80_0000 - 1) as nat)
    }
}

impl Binary32 {
    /// The pattern with the sign bit removed.
    pub open spec fn pattern(self) -> nat {
        (self.bits % 0x8000_0000) as nat
    }

    pub open spec fn is_negative(self) -> bool {
        self.bits >= 0x8000_0000
    }

    pub open spec fn is_nan(self) -> bool {
        self.pattern() > 0x7f80_0000
    }

    pub open spec fn is_infinite(self) -> bool {
        self.pattern() == 0x7f80_0000
    }

    pub open spec fn is_finite(self) -> bool {
        self.pattern() < 0x7f80_0000
    }

    pub open spec fn is_zero(self) -> bool {
        self.pattern() == 0
    }

    /// Magnitude in units of 2^-149 (meaningful for finite values).
    pub open spec fn magnitude(self) -> nat {
        pattern_magnitude(self.pattern())
    }

    /// The value in units of 2^-149 (meaningful for finite values).
    pub open spec fn value(self) -> int {
        if self.is_negative() {
            -(self.magnitude() as int)
        } else {
            self.magnitude() as int
        }
    }

    /// An integer that orders all values but NaN as their numeric values are
    /// ordered; both zeros have ordinal 0.
    pub open spec fn ordinal(self) -> int {
        if self.is_negative() {
            -(self.pattern() as int)
        } else {
            self.pattern() as int
        }
    }

    /// The value with the given sign and pattern.
    pub open spec fn pack(negative: bool, pattern: nat) -> Binary32 {
        Binary32 {
            bits: if negative {
                (0x8000_0000 + pattern) as u32
            } else {
                pattern as u32
            },
        }
    }

    /// Numeric "less than": false whenever a NaN is involved.
    pub open spec fn less(self, rhs: Binary32) -> bool {
        !self.is_nan() && !rhs.is_nan() && self.ordinal() < rhs.ordinal()
    }

    /// Numeric equality: false whenever a NaN is involved; the two zeros
    /// are equal.
    pub open spec fn same_value(self, rhs: Binary32) -> bool {
        !self.is_nan() && !rhs.is_nan() && self.ordinal() == rhs.ordinal()
    }

    /// The value with the sign bit cleared.
    pub open spec fn magnitude_of(self) -> Binary32 {
        Binary32 { bits: self.bits % 0x8000_0000 }
    }

    /// The value with the sign bit flipped.
    pub open spec fn negated(self) -> Binary32 {
        Binary32 {
            bits: if self.bits >= 0x8000_0000 {
                (self.bits - 0x8000_0000) as u32
            } else {
                (self.bits + 0x8000_0000) as u32
            },
        }
    }

    /// The larger of two values; where one is a NaN, the other.
    pub open spec fn larger(self, rhs: Binary32) -> Binary32 {
        if self.is_nan() {
            rhs
        } else if rhs.is_nan() {
            self
        } else if self.ordinal() < rhs.ordinal() {
            rhs
        } else {
            self
        }
    }

    /// The value limited to the range from `lo` to `hi`; a NaN stays as
    /// it is.
    pub open spec fn clamped(self, lo: Binary32, hi: Binary32) -> Binary32 {
        if self.less(lo) {
            lo
        } else if hi.less(self) {
            hi
        } else {
            self
        }
    }

    pub fn from_bits(bits: u32) -> (r: Binary32)
        ensures
            r.bits == bits,
    {
        Binary32 { bits }
    }

    pub fn to_bits(self) -> (bits: u32)
        ensures
            bits == self.bits,
    {
        self.bits
    }

    pub fn is_nan_value(self) -> (r: bool)
        ensures
            r == self.is_nan(),
    {
        self.bits % SIGN_BIT > INFINITY_PATTERN
    }

    pub fn is_finite_value(self) -> (r: bool)
        ensures
            r == self.is_finite(),
    {
        self.bits % SIGN_BIT < INFINITY_PATTERN
    }

    /// Absolute value: clears the sign bit (of a NaN too).
    pub fn abs(self) -> (r: Binary32)
        ensures
            r == self.magnitude_of(),
            !r.is_negative(),
            r.pattern() == self.pattern(),
    {
        Binary32 { bits: self.bits % SIGN_BIT }
    }

    /// Negation: flips the sign bit (of a NaN too).
    pub fn neg(self) -> (r: Binary32)
        ensures
            r == self.negated(),
            r.is_negative() == !self.is_negative(),
            r.pattern() == self.pattern(),
    {
        if self.bits >= SIGN_BIT {
            Binary32 { bits: self.bits - SIGN_BIT }
        } else {
            Binary32 { bits: self.bits + SIGN_BIT }
        }
    }

    fn ordinal_of(self) -> (r: i64)
        ensures
            r == self.ordinal(),
    {
        if self.bits >= SIGN_BIT {
            -((self.bits - SIGN_BIT) as i64)
        } else {
            self.bits as i64
        }
    }

    /// `self < rhs` as numbers.
    pub fn lt(self, rhs: Binary32) -> (r: bool)
        ensures
            r == self.less(rhs),
    {
        !self.is_nan_value() && !rhs.is_nan_value() && self.ordinal_of() < rhs.ordinal_of()
    }

    /// `self > rhs` as numbers.
    pub fn gt(self, rhs: Binary32) -> (r: bool)
        ensures
            r == rhs.less(self),
    {
        rhs.lt(self)
    }

    /// `self == rhs` as numbers.
    pub fn eq_value(self, rhs: Binary32) -> (r: bool)
        ensures
            r == self.same_value(rhs),
    {
        !self.is_nan_value() && !rhs.is_nan_value() && self.ordinal_of() == rhs.ordinal_of()
    }

    /// The larger of the two; where one is a NaN, the other.
    pub fn max(self, rhs: Binary32) -> (r: Binary32)
        ensures
            r == self.larger(rhs),
    {
        if self.is_nan_value() {
            rhs
        } else if rhs.is_nan_value() {
            self
        } else if self.ordinal_of() < rhs.ordinal_of() {
            rhs
        } else {
            self
        }
    }

    /// Limits the value to the range from `lo` to `hi`.
    pub fn clamp(self, lo: Binary32, hi: Binary32) -> (r: Binary32)
        requires
            !lo.is_nan(),
            !hi.is_nan(),
            !hi.less(lo),
        ensures
            r == self.clamped(lo, hi),
            !self.is_nan() ==> !r.less(lo) && !hi.less(r) && !r.is_nan(),
    {
        if self.lt(lo) {
            lo
        } else if hi.lt(self) {
            hi
        } else {
            self
        }
    }
}

} // verus!
