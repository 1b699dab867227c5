//! Correctly rounded binary32 arithmetic on patterns: product, quotient,
//! sum and difference.
//!
//! Each operation is specified by the exact rational result, rounded to
//! nearest with ties to even, with the special values handled as IEEE 754
//! prescribes. Every operation that has no numeric result returns the one
//! quiet NaN of `QUIET_NAN_PATTERN`.
use crate::binary32::pattern_magnitude;
use crate::binary32::Binary32;
use crate::binary32::INFINITY_PATTERN;
use crate::binary32::QUIET_NAN_PATTERN;
use crate::binary32::SIGN_BIT;
use crate::rounding::lemma_magnitude_split;
use crate::rounding::lemma_round_ratio_congruent;
use crate::rounding::lemma_round_ratio_shift;
use crate::rounding::lemma_round_ratio_tiny;
use crate::rounding::lemma_rounding_shift_of_range;
use crate::rounding::round_dyadic;
use crate::rounding::round_ratio;
use crate::rounding::round_ratio_unbounded;
use crate::rounding::round_ratio_wide;
use crate::rounding::round_scaled;
use vstd::arithmetic::div_mod::*;
use vstd::arithmetic::mul::*;
use vstd::arithmetic::power2::*;
use vstd::prelude::*;

verus! {

/// The quiet NaN that operations without a numeric result return.
pub open spec fn quiet_nan() -> Binary32 {
    Binary32 { bits: 0x7fc0_0000 }
}

impl Binary32 {
    /// The product of two values, correctly rounded.
    pub open spec fn product(self, rhs: Binary32) -> Binary32 {
        let negative = self.is_negative() != rhs.is_negative();
        if self.is_nan() || rhs.is_nan() {
            quiet_nan()
        } else if self.is_infinite() || rhs.is_infinite() {
            if self.is_zero() || rhs.is_zero() {
                quiet_nan()
            } else {
                Binary32::pack(negative, 0x7f80_0000)
            }
        } else {
            Binary32::pack(
                negative,
                round_ratio(self.magnitude() * rhs.magnitude(), pow2(149)),
            )
        }
    }

    /// The quotient of two values, correctly rounded.
    pub open spec fn quotient(self, rhs: Binary32) -> Binary32 {
        let negative = self.is_negative() != rhs.is_negative();
        if self.is_nan() || rhs.is_nan() {
            quiet_nan()
        } else if self.is_infinite() {
            if rhs.is_infinite() {
                quiet_nan()
            } else {
                Binary32::pack(negative, 0x7f80_0000)
            }
        } else if rhs.is_infinite() {
            Binary32::pack(negative, 0)
        } else if rhs.is_zero() {
            if self.is_zero() {
                quiet_nan()
            } else {
                Binary32::pack(negative, 0x7f80_0000)
            }
        } else {
            Binary32::pack(
                negative,
                round_ratio(self.magnitude() * pow2(149), rhs.magnitude()),
            )
        }
    }

    /// The sum of two values, correctly rounded. An exact sum of zero is
    /// positive zero, unless both values are negative (zeros).
    pub open spec fn sum(self, rhs: Binary32) -> Binary32 {
        if self.is_nan() || rhs.is_nan() {
            quiet_nan()
        } else if self.is_infinite() {
            if rhs.is_infinite() && self.is_negative() != rhs.is_negative() {
                quiet_nan()
            } else {
                Binary32::pack(self.is_negative(), 0x7f80_0000)
            }
        } else if rhs.is_infinite() {
            Binary32::pack(rhs.is_negative(), 0x7f80_0000)
        } else {
            let s = self.value() + rhs.value();
            if s == 0 {
                Binary32::pack(self.is_negative() && rhs.is_negative(), 0)
            } else if s < 0 {
                Binary32::pack(true, round_ratio((-s) as nat, 1))
            } else {
                Binary32::pack(false, round_ratio(s as nat, 1))
            }
        }
    }

    /// The difference of two values, correctly rounded.
    pub open spec fn difference(self, rhs: Binary32) -> Binary32 {
        self.sum(rhs.negated())
    }
}

/// Splits a finite pattern into significand and exponent.
fn split(p: u32) -> (r: (u64, i32))
    requires
        p < 0x7f80_0000,
    ensures
        r.0 < 0x100_0000,
        0 <= r.1 <= 253,
        pattern_magnitude(p as nat) == r.0 * pow2(r.1 as nat),
        r.1 > 0 ==> r.0 >= 0x80_0000,
        p == r.1 * 0x80_0000 + r.0,
{
    if p < 0x100_0000 {
        proof {
            lemma2_to64();
        }
        (p as u64, 0)
    } else {
        ((0x80_0000 + p % 0x80_0000) as u64, (p / 0x80_0000 - 1) as i32)
    }
}

/// Doubles a nonzero significand until it has 24 binary digits.
fn normalise(m: u64) -> (r: (u64, i32))
    requires
        0 < m < 0x100_0000,
    ensures
        0x80_0000 <= r.0 < 0x100_0000,
        0 <= r.1 <= 23,
        r.0 == m * pow2(r.1 as nat),
{
    let mut s: u64 = m;
    let mut j: i32 = 0;
    proof {
        lemma2_to64();
        lemma_mul_basics(m as int);
    }
    while s < 0x80_0000
        invariant
            0 < s < 0x100_0000,
            0 <= j <= 23,
            s == m * pow2(j as nat),
            pow2(j as nat) <= s,
        decreases 23 - j,
    {
        proof {
            lemma2_to64();
            lemma_pow2_unfold((j + 1) as nat);
            assert(m * (2 * pow2(j as nat)) == 2 * (m * pow2(j as nat))) by {
                lemma_mul_is_associative(m as int, 2, pow2(j as nat) as int);
                lemma_mul_is_commutative(m as int, 2);
                lemma_mul_is_associative(2, m as int, pow2(j as nat) as int);
            }
        }
        s = s * 2;
        j = j + 1;
    }
    (s, j)
}

/// The value with the given sign and pattern.
fn pack_bits(negative: bool, p: u32) -> (r: Binary32)
    requires
        p <= 0x7f80_0000,
    ensures
        r == Binary32::pack(negative, p as nat),
        r.pattern() == p,
        r.is_negative() == negative,
{
    if negative {
        Binary32 { bits: SIGN_BIT + p }
    } else {
        Binary32 { bits: p }
    }
}

/// Reordering of a product of four factors.
proof fn lemma_mul_four(a: int, b: int, c: int, d: int)
    ensures
        (a * b) * (c * d) == (a * c) * (b * d),
{
    assert((a * b) * (c * d) == (a * c) * (b * d)) by (nonlinear_arith);
}

/// Product of two significands, each times a power of two.
proof fn lemma_scaled_product(c1: nat, t1: nat, c2: nat, t2: nat)
    ensures
        (c1 * pow2(t1)) * (c2 * pow2(t2)) == (c1 * c2) * pow2(t1 + t2),
{
    lemma_mul_four(c1 as int, pow2(t1) as int, c2 as int, pow2(t2) as int);
    lemma_pow2_adds(t1, t2);
}

/// A significand times two powers of two.
proof fn lemma_scaled_twice(c: nat, t: nat, s: nat)
    ensures
        (c * pow2(t)) * pow2(s) == c * pow2(t + s),
{
    lemma_pow2_adds(t, s);
    lemma_mul_is_associative(c as int, pow2(t) as int, pow2(s) as int);
}

/// The exact product of two magnitudes, as a product of significands
/// times a power of two.
proof fn lemma_product_scaled(ma: nat, ea: nat, mb: nat, eb: nat)
    ensures
        round_ratio((ma * pow2(ea)) * (mb * pow2(eb)), pow2(149)) == round_scaled(
            ma * mb,
            ea + eb - 149,
        ),
{
    let n1 = (ma * pow2(ea)) * (mb * pow2(eb));
    let e = ea + eb - 149;
    lemma_pow2_pos(149);
    lemma_scaled_product(ma, ea, mb, eb);
    if e >= 0 {
        let n2 = (ma * mb) * pow2(e as nat);
        assert(n1 * 1 == n2 * pow2(149)) by {
            lemma_pow2_adds(e as nat, 149);
            lemma_mul_is_associative((ma * mb) as int, pow2(e as nat) as int, pow2(149) as int);
        }
        lemma_round_ratio_congruent(n1, pow2(149), n2, 1);
    } else {
        let d2 = pow2((-e) as nat);
        lemma_pow2_pos((-e) as nat);
        assert(n1 * d2 == (ma * mb) * pow2(149)) by {
            lemma_pow2_adds(ea + eb, (-e) as nat);
            lemma_mul_is_associative((ma * mb) as int, pow2(ea + eb) as int, d2 as int);
        }
        lemma_round_ratio_congruent(n1, pow2(149), ma * mb, d2);
    }
}

/// A value within a quarter of the last digit's weight of what a pattern
/// holds rounds to that pattern.
proof fn lemma_round_near(p: nat, delta: int)
    requires
        0x100_0000 <= p < 0x7f80_0000,
        -(pow2((p / 0x80_0000 - 1) as nat) as int) < 4 * delta < pow2((p / 0x80_0000 - 1) as nat),
    ensures
        pattern_magnitude(p) + delta > 0,
        round_ratio_unbounded((pattern_magnitude(p) + delta) as nat, 1) == p,
        round_ratio((pattern_magnitude(p) + delta) as nat, 1) == p,
{
    let e = (p / 0x80_0000 - 1) as nat;
    let m = 0x80_0000 + p % 0x80_0000;
    let unit = pow2(e);
    let mag = pattern_magnitude(p);
    lemma_magnitude_split(p);
    lemma_pow2_pos(e);
    lemma_pow2_unfold(e);
    let half = pow2((e - 1) as nat);
    lemma_pow2_pos((e - 1) as nat);
    let x = (mag + delta) as nat;
    assert(m * unit == mag);
    if delta >= 0 {
        assert((m + 1) * unit == m * unit + unit) by (nonlinear_arith);
        assert((m + 1) * unit <= 0x100_0000 * unit) by {
            lemma_mul_inequality((m + 1) as int, 0x100_0000, unit as int);
        }
        lemma_rounding_shift_of_range(x, e);
        assert(unit * 1 == unit);
        lemma_fundamental_div_mod_converse(x as int, unit as int, m as int, delta);
    } else if m > 0x80_0000 {
        assert((m - 1) * unit == m * unit - unit) by (nonlinear_arith);
        assert(0x80_0000 * unit <= (m - 1) * unit) by {
            lemma_mul_inequality(0x80_0000, (m - 1) as int, unit as int);
        }
        lemma_rounding_shift_of_range(x, e);
        assert(unit * 1 == unit);
        lemma_fundamental_div_mod_converse(x as int, unit as int, (m - 1) as int, unit + delta);
    } else {
        assert(mag == 0x100_0000 * half);
        lemma_rounding_shift_of_range(x, (e - 1) as nat);
        assert(half * 1 == half);
        lemma_fundamental_div_mod_converse(x as int, half as int, 0xff_ffff, half + delta);
    }
}

/// The exact sum or difference of two aligned significands, times the
/// common power of two.
proof fn lemma_aligned(m1: nat, dexp: nat, m2: nat, e2: nat)
    ensures
        (m1 * pow2(dexp)) * pow2(e2) == m1 * pow2(dexp + e2),
        ((m1 * pow2(dexp)) + m2) * pow2(e2) == m1 * pow2(dexp + e2) + m2 * pow2(e2),
        m1 * pow2(dexp) >= m2 ==> ((m1 * pow2(dexp)) - m2) * pow2(e2) == m1 * pow2(dexp + e2) - m2
            * pow2(e2),
        m1 * pow2(dexp) < m2 ==> (m2 - (m1 * pow2(dexp))) * pow2(e2) == m2 * pow2(e2) - m1 * pow2(
            dexp + e2,
        ),
{
    let big = m1 * pow2(dexp);
    let unit = pow2(e2);
    lemma_scaled_twice(m1, dexp, e2);
    assert((big + m2) * unit == big * unit + m2 * unit) by (nonlinear_arith);
    assert((big - m2) * unit == big * unit - m2 * unit) by (nonlinear_arith);
    assert((m2 - big) * unit == m2 * unit - big * unit) by (nonlinear_arith);
}

/// A magnitude whose exponent lies at least 37 below another's is less than
/// a quarter of the weight of the other's last digit.
proof fn lemma_far_below(m2: nat, e2: nat, e1: nat)
    requires
        m2 < 0x100_0000,
        e1 >= e2 + 37,
    ensures
        4 * (m2 * pow2(e2)) < pow2(e1),
{
    lemma_pow2_adds(e2, (e1 - e2) as nat);
    lemma_pow2_pos(e2);
    lemma2_to64_rest();
    if e1 - e2 > 37 {
        lemma_pow2_strictly_increases(37, (e1 - e2) as nat);
    }
    let unit = pow2(e2);
    let up = pow2((e1 - e2) as nat);
    assert(4 * (m2 * unit) < unit * up) by (nonlinear_arith)
        requires
            m2 < 0x100_0000,
            up >= 0x2000000000,
            unit > 0,
    ;
}

impl Binary32 {
    /// `self * rhs`.
    pub fn mul(self, rhs: Binary32) -> (r: Binary32)
        ensures
            r == self.product(rhs),
    {
        let pa = self.bits % SIGN_BIT;
        let pb = rhs.bits % SIGN_BIT;
        let negative = (self.bits >= SIGN_BIT) != (rhs.bits >= SIGN_BIT);
        if pa > INFINITY_PATTERN || pb > INFINITY_PATTERN {
            return Binary32 { bits: QUIET_NAN_PATTERN };
        }
        if pa == INFINITY_PATTERN || pb == INFINITY_PATTERN {
            if pa == 0 || pb == 0 {
                return Binary32 { bits: QUIET_NAN_PATTERN };
            }
            return pack_bits(negative, INFINITY_PATTERN);
        }
        let (ma, ea) = split(pa);
        let (mb, eb) = split(pb);
        proof {
            assert(ma * mb < 0x100_0000 * 0x100_0000) by (nonlinear_arith)
                requires
                    ma < 0x100_0000,
                    mb < 0x100_0000,
            ;
            lemma_product_scaled(ma as nat, ea as nat, mb as nat, eb as nat);
        }
        let p = round_dyadic(ma * mb, ea + eb - 149);
        pack_bits(negative, p)
    }
}

impl Binary32 {
    /// `self + rhs`.
    pub fn add(self, rhs: Binary32) -> (r: Binary32)
        ensures
            r == self.sum(rhs),
    {
        let pa = self.bits % SIGN_BIT;
        let pb = rhs.bits % SIGN_BIT;
        let na = self.bits >= SIGN_BIT;
        let nb = rhs.bits >= SIGN_BIT;
        if pa > INFINITY_PATTERN || pb > INFINITY_PATTERN {
            return Binary32 { bits: QUIET_NAN_PATTERN };
        }
        if pa == INFINITY_PATTERN {
            if pb == INFINITY_PATTERN && na != nb {
                return Binary32 { bits: QUIET_NAN_PATTERN };
            }
            return pack_bits(na, INFINITY_PATTERN);
        }
        if pb == INFINITY_PATTERN {
            return pack_bits(nb, INFINITY_PATTERN);
        }
        let (ma, ea) = split(pa);
        let (mb, eb) = split(pb);
        if ea >= eb {
            add_ordered(pa, ma, ea, na, pb, mb, eb, nb)
        } else {
            add_ordered(pb, mb, eb, nb, pa, ma, ea, na)
        }
    }

    /// `self - rhs`.
    pub fn sub(self, rhs: Binary32) -> (r: Binary32)
        ensures
            r == self.difference(rhs),
    {
        self.add(rhs.neg())
    }
}

/// The signed value, in units of 2^-149, of a sign and a magnitude.
spec fn signed(negative: bool, magnitude: nat) -> int {
    if negative {
        -(magnitude as int)
    } else {
        magnitude as int
    }
}

/// The sum of two finite values, each given as sign and magnitude: the
/// exact sum, rounded; an exact sum of zero is negative only where both
/// values are.
spec fn finite_sum(n1: bool, mag1: nat, n2: bool, mag2: nat) -> Binary32 {
    let s = signed(n1, mag1) + signed(n2, mag2);
    if s == 0 {
        Binary32::pack(n1 && n2, 0)
    } else if s < 0 {
        Binary32::pack(true, round_ratio((-s) as nat, 1))
    } else {
        Binary32::pack(false, round_ratio(s as nat, 1))
    }
}

/// Adds two finite values, each given as pattern, significand, exponent and
/// sign, the first with the larger exponent. Exponents up to 36 apart are
/// aligned and added exactly; further apart, the second value is too small
/// to change the first.
fn add_ordered(
    px: u32,
    m1: u64,
    e1: i32,
    n1: bool,
    py: u32,
    m2: u64,
    e2: i32,
    n2: bool,
) -> (r: Binary32)
    requires
        px < 0x7f80_0000,
        py < 0x7f80_0000,
        m1 < 0x100_0000,
        m2 < 0x100_0000,
        0 <= e2 <= e1 <= 253,
        pattern_magnitude(px as nat) == m1 * pow2(e1 as nat),
        pattern_magnitude(py as nat) == m2 * pow2(e2 as nat),
        e1 > 0 ==> m1 >= 0x80_0000,
        px == e1 * 0x80_0000 + m1,
    ensures
        r == finite_sum(n1, pattern_magnitude(px as nat), n2, pattern_magnitude(py as nat)),
{
    let ghost mag1 = pattern_magnitude(px as nat);
    let ghost mag2 = pattern_magnitude(py as nat);
    let dexp = e1 - e2;
    if dexp >= 37 {
        proof {
            lemma_far_below(m2 as nat, e2 as nat, e1 as nat);
            assert(px / 0x80_0000 - 1 == e1);
            lemma_magnitude_split(px as nat);
            lemma_pow2_pos(e1 as nat);
            if n1 == n2 {
                lemma_round_near(px as nat, mag2 as int);
            } else {
                lemma_round_near(px as nat, -(mag2 as int));
            }
        }
        pack_bits(n1, px)
    } else {
        proof {
            lemma2_to64_rest();
            lemma2_to64();
            lemma_pow2_pos(dexp as nat);
            if dexp < 36 {
                lemma_pow2_strictly_increases(dexp as nat, 36);
            }
            assert(m1 * pow2(dexp as nat) < 0x100_0000 * 0x10_0000_0000) by (nonlinear_arith)
                requires
                    m1 < 0x100_0000,
                    0 < pow2(dexp as nat) <= 0x10_0000_0000,
            ;
            vstd::bits::lemma_u64_shl_is_mul(m1, dexp as u64);
            lemma_aligned(m1 as nat, dexp as nat, m2 as nat, e2 as nat);
        }
        let big: u64 = m1 << (dexp as u64);
        if n1 == n2 {
            let p = round_dyadic(big + m2, e2);
            proof {
                if big + m2 == 0 {
                    assert(mag1 + mag2 == 0);
                }
            }
            pack_bits(n1, p)
        } else if big >= m2 {
            let p = round_dyadic(big - m2, e2);
            if big == m2 {
                pack_bits(false, p)
            } else {
                proof {
                    lemma_pow2_pos(e2 as nat);
                    assert((big - m2) * pow2(e2 as nat) > 0) by {
                        lemma_mul_strictly_positive((big - m2) as int, pow2(e2 as nat) as int);
                    }
                }
                pack_bits(n1, p)
            }
        } else {
            proof {
                lemma_pow2_pos(e2 as nat);
                assert((m2 - big) * pow2(e2 as nat) > 0) by {
                    lemma_mul_strictly_positive((m2 - big) as int, pow2(e2 as nat) as int);
                }
            }
            let p = round_dyadic(m2 - big, e2);
            pack_bits(n2, p)
        }
    }
}

/// The exact quotient of two magnitudes equals the quotient of their
/// normalised significands, times a power of two.
proof fn lemma_quotient_scaled(
    ma0: nat,
    ea: nat,
    sa: nat,
    mb0: nat,
    eb: nat,
    sb: nat,
    up: nat,
    down: nat,
)
    requires
        mb0 > 0,
        ea + 149 + sb + down == sa + 25 + up + eb,
    ensures
        round_ratio((ma0 * pow2(ea)) * pow2(149), mb0 * pow2(eb)) == round_ratio(
            (((ma0 * pow2(sa)) * 0x200_0000) * pow2(up)),
            (mb0 * pow2(sb)) * pow2(down),
        ),
        round_ratio_unbounded((ma0 * pow2(ea)) * pow2(149), mb0 * pow2(eb))
            == round_ratio_unbounded(
            (((ma0 * pow2(sa)) * 0x200_0000) * pow2(up)),
            (mb0 * pow2(sb)) * pow2(down),
        ),
{
    let n1 = (ma0 * pow2(ea)) * pow2(149);
    let d1 = mb0 * pow2(eb);
    let n2 = ((ma0 * pow2(sa)) * 0x200_0000) * pow2(up);
    let d2 = (mb0 * pow2(sb)) * pow2(down);
    lemma2_to64();
    lemma_pow2_pos(eb);
    lemma_pow2_pos(sb + down);
    lemma_scaled_twice(ma0, ea, 149);
    lemma_scaled_twice(mb0, sb, down);
    lemma_scaled_twice(ma0, sa, 25);
    lemma_scaled_twice(ma0, sa + 25, up);
    assert(d1 > 0) by {
        lemma_mul_strictly_positive(mb0 as int, pow2(eb) as int);
    }
    assert(d2 > 0) by {
        lemma_mul_strictly_positive(mb0 as int, pow2(sb + down) as int);
    }
    assert(n1 * d2 == (ma0 * mb0) * pow2(ea + 149 + sb + down)) by {
        lemma_scaled_product(ma0, ea + 149, mb0, sb + down);
    }
    assert(n2 * d1 == (ma0 * mb0) * pow2(sa + 25 + up + eb)) by {
        lemma_scaled_product(ma0, sa + 25 + up, mb0, eb);
    }
    lemma_round_ratio_congruent(n1, d1, n2, d2);
}

impl Binary32 {
    /// `self / rhs`.
    pub fn div(self, rhs: Binary32) -> (r: Binary32)
        ensures
            r == self.quotient(rhs),
    {
        let pa = self.bits % SIGN_BIT;
        let pb = rhs.bits % SIGN_BIT;
        let negative = (self.bits >= SIGN_BIT) != (rhs.bits >= SIGN_BIT);
        if pa > INFINITY_PATTERN || pb > INFINITY_PATTERN {
            return Binary32 { bits: QUIET_NAN_PATTERN };
        }
        if pa == INFINITY_PATTERN {
            if pb == INFINITY_PATTERN {
                return Binary32 { bits: QUIET_NAN_PATTERN };
            }
            return pack_bits(negative, INFINITY_PATTERN);
        }
        if pb == INFINITY_PATTERN {
            return pack_bits(negative, 0);
        }
        if pb == 0 {
            if pa == 0 {
                return Binary32 { bits: QUIET_NAN_PATTERN };
            }
            return pack_bits(negative, INFINITY_PATTERN);
        }
        let (ma0, ea) = split(pa);
        let (mb0, eb) = split(pb);
        if pa == 0 {
            proof {
                lemma_pow2_pos(eb as nat);
                assert(mb0 * pow2(eb as nat) > 0) by {
                    lemma_mul_strictly_positive(mb0 as int, pow2(eb as nat) as int);
                }
                assert(0 * pow2(149) == 0);
                lemma_round_ratio_tiny(0, rhs.magnitude());
            }
            return pack_bits(negative, 0);
        }
        let (ma, sa) = normalise(ma0);
        let (mb, sb) = normalise(mb0);
        let e: i32 = ea - sa - eb + sb + 124;
        let n: u64 = ma * 0x200_0000;
        if e >= 0 {
            let unclamped = round_ratio_wide(n, mb);
            proof {
                lemma2_to64();
                lemma_quotient_scaled(
                    ma0 as nat,
                    ea as nat,
                    sa as nat,
                    mb0 as nat,
                    eb as nat,
                    sb as nat,
                    e as nat,
                    0,
                );
                assert(mb * pow2(0) == mb);
                lemma_round_ratio_shift(n as nat, mb as nat, e as nat);
            }
            let total: u64 = unclamped + (e as u64) * 0x80_0000;
            if total >= 0x7f80_0000 {
                pack_bits(negative, INFINITY_PATTERN)
            } else {
                pack_bits(negative, total as u32)
            }
        } else {
            let j: i32 = -e;
            proof {
                lemma2_to64();
                lemma2_to64_rest();
                lemma_quotient_scaled(
                    ma0 as nat,
                    ea as nat,
                    sa as nat,
                    mb0 as nat,
                    eb as nat,
                    sb as nat,
                    0,
                    j as nat,
                );
                assert(n * pow2(0) == n);
                lemma_pow2_pos(j as nat);
            }
            if j >= 38 {
                proof {
                    if j > 38 {
                        lemma_pow2_strictly_increases(38, j as nat);
                    }
                    assert(2 * n <= mb * pow2(j as nat)) by (nonlinear_arith)
                        requires
                            n < 0x2_0000_0000_0000,
                            mb >= 0x80_0000,
                            pow2(j as nat) >= 0x40_0000_0000,
                    ;
                    lemma_mul_strictly_positive(mb as int, pow2(j as nat) as int);
                    lemma_round_ratio_tiny(n as nat, (mb as nat) * pow2(j as nat));
                }
                pack_bits(negative, 0)
            } else {
                proof {
                    if j < 37 {
                        lemma_pow2_strictly_increases(j as nat, 37);
                    }
                    assert(0 < mb * pow2(j as nat) < 0x100_0000 * 0x20_0000_0000) by (nonlinear_arith)
                        requires
                            0 < mb < 0x100_0000,
                            0 < pow2(j as nat) <= 0x20_0000_0000,
                    ;
                    vstd::bits::lemma_u64_shl_is_mul(mb, j as u64);
                }
                let d: u64 = mb << (j as u64);
                let unclamped = round_ratio_wide(n, d);
                if unclamped >= 0x7f80_0000 {
                    pack_bits(negative, INFINITY_PATTERN)
                } else {
                    pack_bits(negative, unclamped as u32)
                }
            }
        }
    }
}

} // verus!
