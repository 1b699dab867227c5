//! Where the poles of the designed sections lie.
//!
//! A section is stable where both poles of its recursion lie strictly
//! inside the unit circle, that is where `|a2| < 1` and `|a1| < 1 + a2`. The
//! law of this module shows both of the coefficients that the designs
//! compute, taken as the exact numbers that they hold, for every cosine of
//! magnitude at most `1 - 2^-21` and every sine from `2^-23` to 1. At 44100
//! and 48000 samples per second that covers every corner frequency from 10
//! Hz to 0.99 of the Nyquist frequency.
use crate::binary32::pattern_magnitude;
use crate::binary32::Binary32;
use crate::biquad::design_alpha;
use crate::biquad::lemma_common_divisor;
use crate::biquad::lemma_design_alpha;
use crate::biquad::lemma_twice_q;
use crate::biquad::value_of;
use crate::biquad::Biquad;
use crate::biquad::MINUS_TWO_BITS;
use crate::biquad::ONE_BITS;
use crate::biquad::SQRT_2_BITS;
use crate::biquad::TWO_BITS;
use crate::identities::lemma_complement_in_unit_interval;
use crate::identities::lemma_magnitude_against_one;
use crate::identities::lemma_magnitude_of_one;
use crate::identities::lemma_negated;
use crate::identities::lemma_one_plus_one;
use crate::identities::lemma_quotient_error;
use crate::identities::lemma_quotient_shrinks;
use crate::identities::lemma_sum_commutes;
use crate::identities::lemma_sum_error;
use crate::identities::lemma_sum_monotone;
use crate::rounding::lemma_magnitude_monotone;
use crate::rounding::lemma_round_exact;
use crate::rounding::lemma_round_ratio_antitone;
use crate::rounding::lemma_round_ratio_congruent;
use crate::rounding::lemma_round_ratio_monotone;
use vstd::arithmetic::mul::*;
use vstd::arithmetic::power2::*;
use vstd::prelude::*;

verus! {

/// Pattern of `1 - 2^-21`, the largest magnitude of a cosine that the law
/// covers.
pub const COSINE_LIMIT_BITS: u32 = 0x3f7f_fff8;

/// Pattern of `2^-23`, the least sine that the law covers.
pub const SINE_LIMIT_BITS: u32 = 0x3400_0000;

impl Biquad {
    /// Whether both poles lie strictly inside the unit circle: `|a2| < 1`
    /// and `|a1| < 1 + a2`, of the numbers that the coefficients hold.
    pub open spec fn is_stable(self) -> bool {
        &&& self.a1.is_finite()
        &&& self.a2.is_finite()
        &&& self.a2.magnitude() < pow2(149)
        &&& self.a1.magnitude() < pow2(149) + self.a2.value()
    }
}

/// The magnitudes, in units of 2^-149, of the patterns that bound the
/// law's ranges.
proof fn lemma_limit_magnitudes()
    ensures
        pattern_magnitude(0x3380_0000) == pow2(125),
        pattern_magnitude(0x3400_0000) == 2 * pow2(125),
        pattern_magnitude(0x3f7f_ffff) == 0xff_ffff * pow2(125),
        pattern_magnitude(0x3f7f_fff8) == 0xff_fff8 * pow2(125),
        pattern_magnitude(0x3fff_fff8) == 0x1ff_fff0 * pow2(125),
        pow2(149) == 0x100_0000 * pow2(125),
        pow2(150) == 0x200_0000 * pow2(125),
        pow2(126) == 2 * pow2(125),
        pow2(125) > 0,
{
    lemma2_to64();
    lemma_pow2_pos(125);
    lemma_pow2_adds(23, 102);
    lemma_pow2_adds(24, 125);
    lemma_pow2_adds(25, 125);
    lemma_pow2_unfold(126);
    lemma_pow2_unfold(103);
    lemma_pow2_adds(23, 103);
    assert(0xff_fff8 * pow2(126) == 0x1ff_fff0 * pow2(125));
}

/// For a sine from 2^-23 to 1, `alpha` lies between 2^-24 and 1.
pub proof fn lemma_alpha_range(sinw: Binary32)
    requires
        SINE_LIMIT_BITS <= sinw.bits <= ONE_BITS,
    ensures
        0x3380_0000 <= design_alpha(sinw).bits <= ONE_BITS,
{
    let divisor = value_of(TWO_BITS).product(value_of(ONE_BITS).quotient(value_of(SQRT_2_BITS)));
    let unit = pow2(125);
    lemma_design_alpha(sinw);
    lemma_twice_q();
    lemma_limit_magnitudes();
    lemma_one_plus_one();
    lemma_magnitude_of_one();
    lemma_pow2_pos(149);
    lemma_pow2_pos(150);
    lemma_magnitude_monotone(ONE_BITS as nat, divisor.pattern());
    lemma_magnitude_monotone(divisor.pattern(), TWO_BITS as nat);
    lemma_magnitude_monotone(0x3400_0000, sinw.pattern());
    let m = sinw.magnitude();
    lemma_round_ratio_antitone(m * pow2(149), divisor.magnitude(), pow2(150));
    lemma_mul_inequality((2 * unit) as int, m as int, pow2(149) as int);
    lemma_round_ratio_monotone((2 * unit) * pow2(149), m * pow2(149), pow2(150));
    assert(((2 * unit) * pow2(149)) * 1 == unit * pow2(150)) by {
        lemma_mul_is_associative(2, unit as int, pow2(149) as int);
        lemma_mul_is_associative(unit as int, 2, pow2(149) as int);
        lemma_mul_is_commutative(2, unit as int);
    }
    lemma_round_ratio_congruent((2 * unit) * pow2(149), pow2(150), unit, 1);
    lemma_round_exact(0x3380_0000);
}

/// The arithmetic at the heart of the law, over plain integers: `unit` is
/// 2^125, `one` is 2^149, and the other numbers are the magnitudes of
/// `alpha`, `1 + alpha`, `1 - alpha`, `-2 cos`, `a1` and `a2`, each with
/// what rounding leaves known of it.
proof fn lemma_triangle(unit: int, one: int, a: int, d: int, u: int, n: int, m1: int, m2: int)
    requires
        unit > 0,
        one == 0x100_0000 * unit,
        unit <= a <= one,
        one <= d <= 2 * one,
        one + a < d + 2 * unit,
        one < u + a + unit,
        0 <= n <= 2 * one - 16 * unit,
        m1 * d < n * one + (2 * unit) * d,
        u * one < m2 * d + unit * d,
        0 <= m1,
        0 <= m2,
    ensures
        m1 < one + m2,
{
    if m1 >= one + m2 {
        assert(m1 * d >= (one + m2) * d) by (nonlinear_arith)
            requires
                m1 >= one + m2,
                d > 0,
        ;
        assert((one + m2) * d == one * d + m2 * d) by (nonlinear_arith);
        assert(n * one <= (2 * one - 16 * unit) * one) by (nonlinear_arith)
            requires
                n <= 2 * one - 16 * unit,
                one > 0,
        ;
        assert((2 * one - 16 * unit) * one == 2 * (one * one) - 16 * (unit * one))
            by (nonlinear_arith);
        assert(u * one >= (one - a - unit + 1) * one) by (nonlinear_arith)
            requires
                u >= one - a - unit + 1,
                one > 0,
        ;
        assert((one - a - unit + 1) * one == one * one - a * one - unit * one + one)
            by (nonlinear_arith);
        assert(one * d >= one * (one + a - 2 * unit + 1)) by (nonlinear_arith)
            requires
                d >= one + a - 2 * unit + 1,
                one > 0,
        ;
        assert(one * (one + a - 2 * unit + 1) == one * one + a * one - 2 * (unit * one) + one)
            by (nonlinear_arith);
        assert(unit * d <= unit * (2 * one)) by (nonlinear_arith)
            requires
                d <= 2 * one,
                unit > 0,
        ;
        assert(unit * (2 * one) == 2 * (unit * one)) by (nonlinear_arith);
        assert((2 * unit) * d == 2 * (unit * d)) by (nonlinear_arith);
        assert(unit * one > 0) by (nonlinear_arith)
            requires
                unit > 0,
                one > 0,
        ;
        assert(false);
    }
}

/// The coefficient `a1`: a number of magnitude below two, divided by a
/// number between one and two, differs from the exact quotient by less
/// than 2^-23.
proof fn lemma_first_known(twice: Binary32, a0: Binary32)
    requires
        twice.is_finite(),
        twice.magnitude() <= 2 * pow2(149) - 16 * pow2(125),
        ONE_BITS <= a0.bits <= TWO_BITS,
        pow2(149) <= a0.magnitude(),
    ensures
        twice.quotient(a0).is_finite(),
        twice.quotient(a0).magnitude() * a0.magnitude() < twice.magnitude() * pow2(149) + (2
            * pow2(125)) * a0.magnitude(),
{
    lemma_limit_magnitudes();
    lemma_pow2_pos(149);
    assert(twice.magnitude() * pow2(149) < (0x100_0000 * pow2(126)) * a0.magnitude()) by {
        lemma_mul_strict_inequality(
            twice.magnitude() as int,
            (0x100_0000 * pow2(126)) as int,
            pow2(149) as int,
        );
        lemma_mul_inequality(
            pow2(149) as int,
            a0.magnitude() as int,
            (0x100_0000 * pow2(126)) as int,
        );
        lemma_mul_is_commutative(pow2(149) as int, (0x100_0000 * pow2(126)) as int);
        lemma_mul_is_commutative(a0.magnitude() as int, (0x100_0000 * pow2(126)) as int);
    }
    lemma_quotient_error(twice, a0, 126);
}

/// The coefficient `a2`: a number from zero to below one, divided by a
/// number between one and two, lies from zero to below one and differs
/// from the exact quotient by less than 2^-24.
proof fn lemma_second_known(rest: Binary32, a0: Binary32)
    requires
        rest.bits <= 0x3f7f_ffff,
        rest.magnitude() < pow2(149),
        ONE_BITS <= a0.bits <= TWO_BITS,
        pow2(149) <= a0.magnitude(),
    ensures
        rest.quotient(a0).is_finite(),
        !rest.quotient(a0).is_negative(),
        rest.quotient(a0).magnitude() < pow2(149),
        rest.magnitude() * pow2(149) < rest.quotient(a0).magnitude() * a0.magnitude() + pow2(125)
            * a0.magnitude(),
{
    lemma_limit_magnitudes();
    lemma_pow2_pos(149);
    assert(rest.magnitude() * pow2(149) < (0x100_0000 * pow2(125)) * a0.magnitude()) by {
        lemma_mul_strict_inequality(
            rest.magnitude() as int,
            pow2(149) as int,
            pow2(149) as int,
        );
        lemma_mul_inequality(pow2(149) as int, a0.magnitude() as int, pow2(149) as int);
        lemma_mul_is_commutative(a0.magnitude() as int, pow2(149) as int);
    }
    lemma_quotient_error(rest, a0, 125);
    lemma_quotient_shrinks(rest, a0);
    lemma_magnitude_against_one(rest.quotient(a0));
}

/// A section whose `a1` and `a2` are the quotients of the design formulas
/// is stable.
proof fn lemma_stable_from_parts(alpha: Binary32, a0: Binary32, rest: Binary32, twice: Binary32)
    requires
        pow2(125) <= alpha.magnitude() <= pow2(149),
        ONE_BITS <= a0.bits <= TWO_BITS,
        pow2(149) <= a0.magnitude() <= 2 * pow2(149),
        pow2(149) + alpha.magnitude() < a0.magnitude() + 2 * pow2(125),
        rest.bits <= 0x3f7f_ffff,
        rest.magnitude() < pow2(149),
        pow2(149) < rest.magnitude() + alpha.magnitude() + pow2(125),
        twice.is_finite(),
        twice.magnitude() <= 2 * pow2(149) - 16 * pow2(125),
    ensures
        twice.quotient(a0).is_finite(),
        rest.quotient(a0).is_finite(),
        rest.quotient(a0).magnitude() < pow2(149),
        twice.quotient(a0).magnitude() < pow2(149) + rest.quotient(a0).value(),
{
    lemma_limit_magnitudes();
    lemma_first_known(twice, a0);
    lemma_second_known(rest, a0);
    lemma_triangle(
        pow2(125) as int,
        pow2(149) as int,
        alpha.magnitude() as int,
        a0.magnitude() as int,
        rest.magnitude() as int,
        twice.magnitude() as int,
        twice.quotient(a0).magnitude() as int,
        rest.quotient(a0).magnitude() as int,
    );
}

/// For a cosine of magnitude at most `1 - 2^-21` and a sine from `2^-23`
/// to 1, both designs place their poles strictly inside the unit circle.
pub proof fn lemma_design_is_stable(cosw: Binary32, sinw: Binary32)
    requires
        cosw.pattern() <= COSINE_LIMIT_BITS,
        SINE_LIMIT_BITS <= sinw.bits <= ONE_BITS,
    ensures
        Biquad::lowpass(cosw, sinw).is_stable(),
        Biquad::highpass(cosw, sinw).is_stable(),
{
    let one = value_of(ONE_BITS);
    let alpha = design_alpha(sinw);
    lemma_alpha_range(sinw);
    lemma_limit_magnitudes();
    lemma_magnitude_of_one();
    lemma_magnitude_monotone(0x3380_0000, alpha.pattern());
    lemma_magnitude_monotone(alpha.pattern(), ONE_BITS as nat);
    lemma_divisor_known(alpha);
    lemma_rest_known(alpha);
    lemma_twice_known(cosw);
    lemma_stable_from_parts(
        alpha,
        one.sum(alpha),
        one.difference(alpha),
        value_of(MINUS_TWO_BITS).product(cosw),
    );
}

/// What is known of `1 + alpha` for an `alpha` between 2^-24 and 1.
proof fn lemma_divisor_known(alpha: Binary32)
    requires
        0x3380_0000 <= alpha.bits <= ONE_BITS,
    ensures
        ONE_BITS <= value_of(ONE_BITS).sum(alpha).bits <= TWO_BITS,
        pow2(149) <= value_of(ONE_BITS).sum(alpha).magnitude() <= 2 * pow2(149),
        pow2(149) + alpha.magnitude() < value_of(ONE_BITS).sum(alpha).magnitude() + 2 * pow2(125),
{
    let one = value_of(ONE_BITS);
    let a0 = one.sum(alpha);
    lemma_common_divisor(alpha);
    lemma_limit_magnitudes();
    lemma_magnitude_of_one();
    lemma_one_plus_one();
    lemma_magnitude_monotone(ONE_BITS as nat, a0.pattern());
    lemma_magnitude_monotone(a0.pattern(), TWO_BITS as nat);
    lemma_magnitude_monotone(alpha.pattern(), ONE_BITS as nat);
    if alpha.bits < ONE_BITS {
        lemma_sum_error(one, alpha, 126);
    }
}

/// What is known of `1 - alpha` for an `alpha` between 2^-24 and 1.
proof fn lemma_rest_known(alpha: Binary32)
    requires
        0x3380_0000 <= alpha.bits <= ONE_BITS,
    ensures
        value_of(ONE_BITS).difference(alpha).bits <= 0x3f7f_ffff,
        value_of(ONE_BITS).difference(alpha).magnitude() < pow2(149),
        pow2(149) < value_of(ONE_BITS).difference(alpha).magnitude() + alpha.magnitude() + pow2(
            125,
        ),
{
    let one = value_of(ONE_BITS);
    let least = value_of(0x3380_0000);
    let rest = one.difference(alpha);
    lemma_limit_magnitudes();
    lemma_magnitude_of_one();
    lemma_complement_in_unit_interval(alpha);
    lemma_negated(alpha);
    lemma_negated(least);
    lemma_magnitude_monotone(0x3380_0000, alpha.pattern());
    lemma_magnitude_monotone(alpha.pattern(), ONE_BITS as nat);
    // not above 1 - 2^-24
    lemma_sum_monotone(alpha.negated(), least.negated(), one);
    lemma_sum_commutes(one, alpha.negated());
    lemma_sum_commutes(one, least.negated());
    lemma_round_exact(0x3f7f_ffff);
    assert(one.difference(least) == value_of(0x3f7f_ffff));
    lemma_magnitude_monotone(rest.pattern(), 0x3f7f_ffff);
    // not far below 1 - alpha
    lemma_sum_error(one, alpha.negated(), 125);
}

/// What is known of `-2 cos` for a cosine of magnitude at most `1 - 2^-21`.
proof fn lemma_twice_known(cosw: Binary32)
    requires
        cosw.pattern() <= COSINE_LIMIT_BITS,
    ensures
        value_of(MINUS_TWO_BITS).product(cosw).is_finite(),
        value_of(MINUS_TWO_BITS).product(cosw).magnitude() <= 2 * pow2(149) - 16 * pow2(125),
{
    let twice = value_of(MINUS_TWO_BITS).product(cosw);
    let unit = pow2(125);
    let m = cosw.magnitude();
    lemma_limit_magnitudes();
    lemma_one_plus_one();
    lemma_pow2_pos(149);
    lemma_magnitude_monotone(cosw.pattern(), 0x3f7f_fff8);
    assert(value_of(MINUS_TWO_BITS).magnitude() == pow2(150));
    lemma_mul_inequality(m as int, (0xff_fff8 * unit) as int, pow2(150) as int);
    lemma_mul_is_commutative(m as int, pow2(150) as int);
    lemma_mul_is_commutative((0xff_fff8 * unit) as int, pow2(150) as int);
    lemma_round_ratio_monotone(pow2(150) * m, pow2(150) * (0xff_fff8 * unit), pow2(149));
    assert((pow2(150) * (0xff_fff8 * unit)) * 1 == (0x1ff_fff0 * unit) * pow2(149)) by {
        assert(pow2(150) == 2 * pow2(149));
        assert((2 * pow2(149)) * (0xff_fff8 * unit) == (0x1ff_fff0 * unit) * pow2(149))
            by (nonlinear_arith);
    }
    lemma_round_ratio_congruent(
        pow2(150) * (0xff_fff8 * unit),
        pow2(149),
        0x1ff_fff0 * unit,
        1,
    );
    lemma_round_exact(0x3fff_fff8);
    lemma_magnitude_monotone(twice.pattern(), 0x3fff_fff8);
}

} // verus!
