//! Laws of the arithmetic that the signal path relies on: neutral elements,
//! zeros, and the order that sums preserve.
use crate::binary32::Binary32;
use crate::biquad::value_of;
use crate::biquad::ONE_BITS;
use crate::rounding::lemma_magnitude_monotone;
use crate::binary32::pattern_magnitude;
use crate::rounding::lemma_round_error;
use crate::rounding::lemma_round_exact;
use crate::rounding::lemma_round_ratio_antitone;
use crate::rounding::lemma_round_ratio_congruent;
use crate::rounding::lemma_round_ratio_monotone;
use crate::rounding::lemma_round_ratio_tiny;
use crate::rounding::round_ratio;
use crate::rounding::round_ratio_unbounded;
use vstd::arithmetic::mul::*;
use vstd::arithmetic::power2::*;
use vstd::prelude::*;

verus! {

/// The number one has magnitude 2^149 units.
pub proof fn lemma_magnitude_of_one()
    ensures
        value_of(ONE_BITS).magnitude() == pow2(149),
        !value_of(ONE_BITS).is_negative(),
        value_of(ONE_BITS).is_finite(),
{
    lemma2_to64();
    lemma_pow2_adds(23, 126);
}

/// A value is its sign and its pattern put together.
pub proof fn lemma_pack_parts(x: Binary32)
    ensures
        Binary32::pack(x.is_negative(), x.pattern()) == x,
{
}

/// Only the zero patterns hold the magnitude zero.
pub proof fn lemma_magnitude_positive(x: Binary32)
    requires
        x.is_finite(),
    ensures
        x.magnitude() == 0 <==> x.is_zero(),
        x.value() == 0 <==> x.is_zero(),
{
    if x.pattern() > 0 {
        lemma_magnitude_monotone(0, x.pattern());
    }
}

/// Among finite values, values are ordered as ordinals are.
pub proof fn lemma_value_order(a: Binary32, b: Binary32)
    requires
        a.is_finite(),
        b.is_finite(),
    ensures
        a.ordinal() <= b.ordinal() <==> a.value() <= b.value(),
        a.ordinal() == b.ordinal() <==> a.value() == b.value(),
{
    let pa = a.pattern();
    let pb = b.pattern();
    if pa <= pb {
        lemma_magnitude_monotone(pa, pb);
    } else {
        lemma_magnitude_monotone(pb, pa);
    }
    lemma_magnitude_monotone(0, pa);
    lemma_magnitude_monotone(0, pb);
}

/// One times a number is that number, bit for bit.
pub proof fn lemma_product_by_one(x: Binary32)
    requires
        !x.is_nan(),
    ensures
        value_of(ONE_BITS).product(x) == x,
        x.product(value_of(ONE_BITS)) == x,
{
    lemma_magnitude_of_one();
    lemma_pack_parts(x);
    if x.is_finite() {
        let m = x.magnitude();
        lemma_pow2_pos(149);
        assert((pow2(149) * m) * 1 == m * pow2(149)) by {
            lemma_mul_is_commutative(pow2(149) as int, m as int);
        }
        lemma_round_ratio_congruent(pow2(149) * m, pow2(149), m, 1);
        lemma_round_ratio_congruent(m * pow2(149), pow2(149), m, 1);
        lemma_round_exact(x.pattern());
    }
}

/// A number divided by one is that number, bit for bit.
pub proof fn lemma_quotient_by_one(x: Binary32)
    requires
        !x.is_nan(),
    ensures
        x.quotient(value_of(ONE_BITS)) == x,
{
    lemma_magnitude_of_one();
    lemma_pack_parts(x);
    if x.is_finite() {
        let m = x.magnitude();
        lemma_pow2_pos(149);
        lemma_round_ratio_congruent(m * pow2(149), pow2(149), m, 1);
        lemma_round_exact(x.pattern());
    }
}

/// Zero times a finite number is a zero.
pub proof fn lemma_product_by_zero(z: Binary32, x: Binary32)
    requires
        z.is_zero(),
        x.is_finite(),
    ensures
        z.product(x).is_zero(),
        x.product(z).is_zero(),
        z.product(x).is_negative() == (z.is_negative() != x.is_negative()),
        x.product(z).is_negative() == (z.is_negative() != x.is_negative()),
{
    lemma_pow2_pos(149);
    assert(0 * x.magnitude() == 0);
    assert(x.magnitude() * 0 == 0);
    lemma_round_ratio_tiny(0, pow2(149));
}

/// A sum of zeros is a zero: the negative one where both are negative.
pub proof fn lemma_sum_of_zeros(a: Binary32, b: Binary32)
    requires
        a.is_zero(),
        b.is_zero(),
    ensures
        a.sum(b).is_zero(),
        a.sum(b).is_negative() == (a.is_negative() && b.is_negative()),
{
}

/// Adding a zero to a number leaves its value; it leaves its bits where
/// the number is not itself a zero.
pub proof fn lemma_sum_with_zero(x: Binary32, z: Binary32)
    requires
        !x.is_nan(),
        z.is_zero(),
    ensures
        x.sum(z).same_value(x),
        z.sum(x).same_value(x),
        !x.is_zero() ==> x.sum(z) == x && z.sum(x) == x,
{
    lemma_pack_parts(x);
    if x.is_finite() {
        lemma_magnitude_positive(x);
        lemma_round_exact(x.pattern());
    }
}

/// A finite number minus itself is positive zero.
pub proof fn lemma_difference_of_equals(x: Binary32)
    requires
        x.is_finite(),
    ensures
        x.difference(x).bits == 0,
{
}

/// Negation changes neither class nor magnitude.
pub proof fn lemma_negated(x: Binary32)
    ensures
        x.negated().pattern() == x.pattern(),
        x.negated().is_negative() == !x.is_negative(),
        x.negated().ordinal() == -x.ordinal(),
{
}

/// The sum of finite numbers is never a NaN, and its ordinal has the sign
/// of the exact sum.
pub proof fn lemma_sum_ordinal(a: Binary32, b: Binary32)
    requires
        a.is_finite(),
        b.is_finite(),
    ensures
        !a.sum(b).is_nan(),
        a.value() + b.value() >= 0 ==> a.sum(b).ordinal() == round_ratio(
            (a.value() + b.value()) as nat,
            1,
        ),
        a.value() + b.value() < 0 ==> a.sum(b).ordinal() == -(round_ratio(
            (-(a.value() + b.value())) as nat,
            1,
        ) as int),
{
    let s = a.value() + b.value();
    if s == 0 {
        lemma_round_ratio_tiny(0, 1);
    }
}

/// Sums preserve order: of finite numbers, the larger gives the larger
/// sum with a third.
pub proof fn lemma_sum_monotone(a: Binary32, b: Binary32, c: Binary32)
    requires
        a.is_finite(),
        b.is_finite(),
        c.is_finite(),
        a.ordinal() <= b.ordinal(),
    ensures
        !a.sum(c).is_nan(),
        !b.sum(c).is_nan(),
        a.sum(c).ordinal() <= b.sum(c).ordinal(),
        !b.sum(c).less(a.sum(c)),
{
    lemma_value_order(a, b);
    lemma_sum_ordinal(a, c);
    lemma_sum_ordinal(b, c);
    let s1 = a.value() + c.value();
    let s2 = b.value() + c.value();
    if s1 >= 0 {
        lemma_round_ratio_monotone(s1 as nat, s2 as nat, 1);
    } else if s2 < 0 {
        lemma_round_ratio_monotone((-s2) as nat, (-s1) as nat, 1);
    }
}

/// The order of the two terms of a sum does not matter.
pub proof fn lemma_sum_commutes(a: Binary32, b: Binary32)
    ensures
        a.sum(b) == b.sum(a),
{
}

/// One minus a number between zero and one lies between zero and one.
pub proof fn lemma_complement_in_unit_interval(c: Binary32)
    requires
        !c.is_nan(),
        !c.less(value_of(0)),
        !value_of(ONE_BITS).less(c),
    ensures
        value_of(ONE_BITS).difference(c).is_finite(),
        !value_of(ONE_BITS).difference(c).less(value_of(0)),
        !value_of(ONE_BITS).less(value_of(ONE_BITS).difference(c)),
{
    let one = value_of(ONE_BITS);
    let zero = value_of(0);
    lemma_magnitude_of_one();
    lemma_negated(c);
    lemma_negated(one);
    lemma_sum_monotone(one.negated(), c.negated(), one);
    lemma_sum_monotone(c.negated(), zero, one);
    lemma_sum_commutes(one, c.negated());
    lemma_sum_commutes(one, one.negated());
    lemma_sum_commutes(one, zero);
    lemma_difference_of_equals(one);
    lemma_sum_with_zero(one, zero);
}

/// A number is at most one in magnitude exactly if its pattern is at most
/// that of one.
pub proof fn lemma_magnitude_against_one(x: Binary32)
    ensures
        x.pattern() <= ONE_BITS <==> x.magnitude() <= pow2(149),
        x.pattern() >= ONE_BITS <==> x.magnitude() >= pow2(149),
{
    lemma_magnitude_of_one();
    if x.pattern() <= ONE_BITS {
        lemma_magnitude_monotone(x.pattern(), ONE_BITS as nat);
    } else {
        lemma_magnitude_monotone(ONE_BITS as nat, x.pattern());
    }
}

/// Dividing by a number of magnitude at least one does not raise the
/// magnitude.
pub proof fn lemma_quotient_shrinks(x: Binary32, c: Binary32)
    requires
        x.is_finite(),
        c.is_finite(),
        c.pattern() >= ONE_BITS,
    ensures
        x.quotient(c).pattern() <= x.pattern(),
        x.quotient(c).is_finite(),
        x.quotient(c).is_negative() == (x.is_negative() != c.is_negative()),
{
    let m = x.magnitude();
    lemma_magnitude_against_one(c);
    lemma_pow2_pos(149);
    lemma_round_ratio_antitone(m * pow2(149), pow2(149), c.magnitude());
    lemma_round_ratio_congruent(m * pow2(149), pow2(149), m, 1);
    lemma_round_exact(x.pattern());
}

/// Multiplying by a number of magnitude at most one does not raise the
/// magnitude.
pub proof fn lemma_product_shrinks(x: Binary32, c: Binary32)
    requires
        x.is_finite(),
        c.pattern() <= ONE_BITS,
    ensures
        x.product(c).pattern() <= x.pattern(),
        c.product(x).pattern() <= x.pattern(),
        x.product(c).is_finite(),
        c.product(x).is_finite(),
        x.product(c).is_negative() == (x.is_negative() != c.is_negative()),
        c.product(x).is_negative() == (x.is_negative() != c.is_negative()),
{
    let m = x.magnitude();
    lemma_magnitude_against_one(c);
    lemma_pow2_pos(149);
    lemma_mul_inequality(c.magnitude() as int, pow2(149) as int, m as int);
    lemma_mul_is_commutative(m as int, c.magnitude() as int);
    lemma_mul_is_commutative(m as int, pow2(149) as int);
    lemma_round_ratio_monotone(m * c.magnitude(), m * pow2(149), pow2(149));
    lemma_round_ratio_congruent(m * pow2(149), pow2(149), m, 1);
    lemma_round_exact(x.pattern());
}

/// One plus one is two.
pub proof fn lemma_one_plus_one()
    ensures
        value_of(ONE_BITS).sum(value_of(ONE_BITS)) == value_of(0x4000_0000),
        value_of(0x4000_0000).magnitude() == pow2(150),
        value_of(0x3f00_0000).magnitude() == pow2(148),
{
    lemma_magnitude_of_one();
    lemma2_to64();
    lemma_pow2_adds(23, 127);
    lemma_pow2_adds(23, 125);
    lemma_pow2_unfold(150);
    lemma_round_exact(0x4000_0000);
}

/// The sum of two numbers between minus one and one lies between minus
/// two and two.
pub proof fn lemma_sum_in_unit_interval(a: Binary32, b: Binary32)
    requires
        a.pattern() <= ONE_BITS,
        b.pattern() <= ONE_BITS,
    ensures
        a.sum(b).pattern() <= 0x4000_0000,
        a.sum(b).is_finite(),
{
    let one = value_of(ONE_BITS);
    lemma_one_plus_one();
    lemma_negated(one);
    lemma_sum_monotone(a, one, b);
    lemma_sum_monotone(b, one, one);
    lemma_sum_commutes(one, b);
    lemma_sum_monotone(one.negated(), a, b);
    lemma_sum_monotone(one.negated(), b, one.negated());
    lemma_sum_commutes(one.negated(), b);
    assert(one.negated().sum(one.negated()) == value_of(0x4000_0000).negated());
}

/// The product of a finite number that is not above zero with a number
/// between zero and one is finite and not above zero.
pub proof fn lemma_product_keeps_sign(x: Binary32, c: Binary32)
    requires
        x.is_finite(),
        x.ordinal() <= 0,
        !c.is_nan(),
        0 <= c.ordinal() <= ONE_BITS,
    ensures
        x.product(c).is_finite(),
        x.product(c).ordinal() <= 0,
        x.product(c).pattern() <= x.pattern(),
{
    lemma_product_shrinks(x, c);
    if c.is_zero() {
        lemma_product_by_zero(c, x);
    } else if x.is_zero() {
        lemma_product_by_zero(x, c);
    }
}

/// The sum of two finite numbers that are not above zero is not above
/// zero.
pub proof fn lemma_sum_keeps_sign(a: Binary32, b: Binary32)
    requires
        a.is_finite(),
        b.is_finite(),
        a.ordinal() <= 0,
        b.ordinal() <= 0,
    ensures
        !a.sum(b).is_nan(),
        a.sum(b).ordinal() <= 0,
{
    lemma_value_order(a, value_of(0));
    lemma_value_order(b, value_of(0));
    lemma_sum_ordinal(a, b);
    if a.value() + b.value() == 0 {
        lemma_round_ratio_tiny(0, 1);
    }
}

/// A quotient below 2^(24 + e) units differs from the exact quotient by
/// less than 2^e units.
pub proof fn lemma_quotient_error(x: Binary32, c: Binary32, e: nat)
    requires
        x.is_finite(),
        c.is_finite(),
        !c.is_zero(),
        e <= 252,
        x.magnitude() * pow2(149) < (0x100_0000 * pow2(e)) * c.magnitude(),
    ensures
        x.quotient(c).is_finite(),
        x.quotient(c).is_negative() == (x.is_negative() != c.is_negative()),
        x.quotient(c).magnitude() * c.magnitude() < x.magnitude() * pow2(149) + pow2(e)
            * c.magnitude(),
        x.magnitude() * pow2(149) < x.quotient(c).magnitude() * c.magnitude() + pow2(e)
            * c.magnitude(),
{
    lemma_magnitude_positive(c);
    lemma_round_error(x.magnitude() * pow2(149), c.magnitude(), e);
}

/// A sum below 2^(24 + e) units in magnitude differs from the exact sum by
/// less than 2^e units, and has its sign.
pub proof fn lemma_sum_error(a: Binary32, b: Binary32, e: nat)
    requires
        a.is_finite(),
        b.is_finite(),
        e <= 252,
        -(0x100_0000 * pow2(e)) < a.value() + b.value() < 0x100_0000 * pow2(e),
    ensures
        a.sum(b).is_finite(),
        a.value() + b.value() > 0 ==> !a.sum(b).is_negative(),
        a.value() + b.value() < 0 ==> a.sum(b).is_negative(),
        a.sum(b).value() < a.value() + b.value() + pow2(e),
        a.value() + b.value() < a.sum(b).value() + pow2(e),
{
    let s = a.value() + b.value();
    lemma_pow2_pos(e);
    if s > 0 {
        assert((0x100_0000 * pow2(e)) * 1 == 0x100_0000 * pow2(e));
        lemma_round_error(s as nat, 1, e);
        let r = round_ratio_unbounded(s as nat, 1);
        assert(pattern_magnitude(r) * 1 == pattern_magnitude(r));
        assert(pow2(e) * 1 == pow2(e));
    } else if s < 0 {
        assert((0x100_0000 * pow2(e)) * 1 == 0x100_0000 * pow2(e));
        lemma_round_error((-s) as nat, 1, e);
        let r = round_ratio_unbounded((-s) as nat, 1);
        assert(pattern_magnitude(r) * 1 == pattern_magnitude(r));
        assert(pow2(e) * 1 == pow2(e));
    }
}

} // verus!
