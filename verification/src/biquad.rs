//! A second-order recursive filter section in transposed direct form II,
//! with Butterworth lowpass and highpass designs.
//!
//! The designs start from the cosine and the sine of the normalised angular
//! frequency, which the caller evaluates; `angular_frequency` computes the
//! angle to evaluate them at.
use crate::binary32::Binary32;
use crate::identities::lemma_complement_in_unit_interval;
use crate::identities::lemma_magnitude_of_one;
use crate::identities::lemma_negated;
use crate::identities::lemma_one_plus_one;
use crate::identities::lemma_product_shrinks;
use crate::identities::lemma_quotient_shrinks;
use crate::identities::lemma_sum_commutes;
use crate::identities::lemma_sum_in_unit_interval;
use crate::identities::lemma_sum_monotone;
use crate::identities::lemma_product_by_one;
use crate::identities::lemma_product_by_zero;
use crate::identities::lemma_sum_of_zeros;
use crate::identities::lemma_sum_with_zero;
use crate::rounding::lemma_magnitude_monotone;
use crate::stability::lemma_design_is_stable;
use crate::stability::COSINE_LIMIT_BITS;
use crate::stability::SINE_LIMIT_BITS;
use crate::rounding::lemma_round_exact;
use crate::rounding::lemma_round_ratio_antitone;
use crate::rounding::lemma_round_ratio_congruent;
use crate::rounding::lemma_round_ratio_monotone;
use vstd::arithmetic::mul::*;
use vstd::arithmetic::power2::*;
use vstd::prelude::*;

verus! {

/// Pattern of 0.0.
pub const ZERO_BITS: u32 = 0;

/// Pattern of 1.0.
pub const ONE_BITS: u32 = 0x3f80_0000;

/// Pattern of 2.0.
pub const TWO_BITS: u32 = 0x4000_0000;

/// Pattern of -2.0.
pub const MINUS_TWO_BITS: u32 = 0xc000_0000;

/// Pattern of the binary32 value nearest to pi.
pub const PI_BITS: u32 = 0x4049_0fdb;

/// Pattern of the binary32 value nearest to the square root of 2.
pub const SQRT_2_BITS: u32 = 0x3fb5_04f3;

/// The value with the given pattern.
pub open spec fn value_of(bits: u32) -> Binary32 {
    Binary32 { bits }
}

/// One filter section: five coefficients and two state registers.
#[derive(Clone, Copy, Debug)]
pub struct Biquad {
    pub b0: Binary32,
    pub b1: Binary32,
    pub b2: Binary32,
    pub a1: Binary32,
    pub a2: Binary32,
    pub z1: Binary32,
    pub z2: Binary32,
}

/// The angle `2 * pi * freq / sample_rate`, evaluated from left to right.
pub open spec fn angular_frequency_of(freq: Binary32, sample_rate: Binary32) -> Binary32 {
    value_of(TWO_BITS).product(value_of(PI_BITS)).product(freq).quotient(sample_rate)
}

/// The quantity `alpha = sinw / (2 * Q)` of the design formulas, with
/// `Q = 1 / sqrt(2)`.
pub open spec fn design_alpha(sinw: Binary32) -> Binary32 {
    sinw.quotient(value_of(TWO_BITS).product(value_of(ONE_BITS).quotient(value_of(SQRT_2_BITS))))
}

impl Biquad {
    /// The section that passes its input through: `b0 = 1`, all else zero.
    pub open spec fn identity() -> Biquad {
        Biquad {
            b0: value_of(ONE_BITS),
            b1: value_of(ZERO_BITS),
            b2: value_of(ZERO_BITS),
            a1: value_of(ZERO_BITS),
            a2: value_of(ZERO_BITS),
            z1: value_of(ZERO_BITS),
            z2: value_of(ZERO_BITS),
        }
    }

    /// The output for input `x`: `y = b0 * x + z1`.
    pub open spec fn output(self, x: Binary32) -> Binary32 {
        self.b0.product(x).sum(self.z1)
    }

    /// The section after input `x`: `z1 = b1 * x - a1 * y + z2` and
    /// `z2 = b2 * x - a2 * y`, with `y` the output for `x`.
    pub open spec fn advanced(self, x: Binary32) -> Biquad {
        let y = self.output(x);
        Biquad {
            b0: self.b0,
            b1: self.b1,
            b2: self.b2,
            a1: self.a1,
            a2: self.a2,
            z1: self.b1.product(x).difference(self.a1.product(y)).sum(self.z2),
            z2: self.b2.product(x).difference(self.a2.product(y)),
        }
    }

    /// The section after the inputs `xs`, in their order.
    pub open spec fn after(self, xs: Seq<Binary32>) -> Biquad
        decreases xs.len(),
    {
        if xs.len() == 0 {
            self
        } else {
            self.after(xs.drop_last()).advanced(xs.last())
        }
    }

    /// The outputs for the inputs `xs`, in their order.
    pub open spec fn response(self, xs: Seq<Binary32>) -> Seq<Binary32> {
        Seq::new(xs.len(), |i: int| self.after(xs.take(i)).output(xs[i]))
    }

    /// Whether the section has the pass-through coefficients and holds
    /// zeros in its state registers.
    pub open spec fn passes_through(self) -> bool {
        &&& self.b0.bits == ONE_BITS
        &&& self.b1.bits == 0
        &&& self.b2.bits == 0
        &&& self.a1.bits == 0
        &&& self.a2.bits == 0
        &&& self.z1.is_zero()
        &&& self.z2.is_zero()
    }

    /// Whether no coefficient exceeds two in magnitude.
    pub open spec fn bounded_by_two(self) -> bool {
        &&& self.b0.pattern() <= TWO_BITS
        &&& self.b1.pattern() <= TWO_BITS
        &&& self.b2.pattern() <= TWO_BITS
        &&& self.a1.pattern() <= TWO_BITS
        &&& self.a2.pattern() <= TWO_BITS
    }

    /// The Butterworth lowpass section for an angle with the given cosine
    /// and sine, at rest.
    pub open spec fn lowpass(cosw: Binary32, sinw: Binary32) -> Biquad {
        let one = value_of(ONE_BITS);
        let two = value_of(TWO_BITS);
        let alpha = design_alpha(sinw);
        let b0 = one.difference(cosw).quotient(two);
        let b1 = one.difference(cosw);
        let a0 = one.sum(alpha);
        Biquad {
            b0: b0.quotient(a0),
            b1: b1.quotient(a0),
            b2: b0.quotient(a0),
            a1: value_of(MINUS_TWO_BITS).product(cosw).quotient(a0),
            a2: one.difference(alpha).quotient(a0),
            z1: value_of(ZERO_BITS),
            z2: value_of(ZERO_BITS),
        }
    }

    /// The Butterworth highpass section for an angle with the given cosine
    /// and sine, at rest.
    pub open spec fn highpass(cosw: Binary32, sinw: Binary32) -> Biquad {
        let one = value_of(ONE_BITS);
        let two = value_of(TWO_BITS);
        let alpha = design_alpha(sinw);
        let b0 = one.sum(cosw).quotient(two);
        let b1 = one.sum(cosw).negated();
        let a0 = one.sum(alpha);
        Biquad {
            b0: b0.quotient(a0),
            b1: b1.quotient(a0),
            b2: b0.quotient(a0),
            a1: value_of(MINUS_TWO_BITS).product(cosw).quotient(a0),
            a2: one.difference(alpha).quotient(a0),
            z1: value_of(ZERO_BITS),
            z2: value_of(ZERO_BITS),
        }
    }

    /// A pass-through section at rest.
    pub fn new() -> (r: Biquad)
        ensures
            r == Biquad::identity(),
    {
        Biquad {
            b0: Binary32::from_bits(ONE_BITS),
            b1: Binary32::from_bits(ZERO_BITS),
            b2: Binary32::from_bits(ZERO_BITS),
            a1: Binary32::from_bits(ZERO_BITS),
            a2: Binary32::from_bits(ZERO_BITS),
            z1: Binary32::from_bits(ZERO_BITS),
            z2: Binary32::from_bits(ZERO_BITS),
        }
    }

    /// Filters one sample.
    pub fn process_sample(&mut self, x: Binary32) -> (y: Binary32)
        ensures
            y == old(self).output(x),
            *final(self) == old(self).advanced(x),
    {
        let y = self.b0.mul(x).add(self.z1);
        self.z1 = self.b1.mul(x).sub(self.a1.mul(y)).add(self.z2);
        self.z2 = self.b2.mul(x).sub(self.a2.mul(y));
        y
    }

    /// The angle whose cosine and sine the designs take, for a corner
    /// frequency and a sample rate in Hz.
    pub fn angular_frequency(freq: Binary32, sample_rate: Binary32) -> (w: Binary32)
        ensures
            w == angular_frequency_of(freq, sample_rate),
    {
        Binary32::from_bits(TWO_BITS).mul(Binary32::from_bits(PI_BITS)).mul(freq).div(sample_rate)
    }

    /// Makes the section a Butterworth lowpass and clears its state.
    /// `cosw` and `sinw` are the cosine and sine of the angular frequency.
    /// Within the limits of the module `stability` the section is stable.
    pub fn set_lowpass(&mut self, cosw: Binary32, sinw: Binary32)
        ensures
            *final(self) == Biquad::lowpass(cosw, sinw),
            final(self).z1.bits == 0,
            final(self).z2.bits == 0,
            cosw.pattern() <= ONE_BITS && sinw.bits <= ONE_BITS ==> final(self).bounded_by_two(),
            cosw.pattern() <= COSINE_LIMIT_BITS && SINE_LIMIT_BITS <= sinw.bits <= ONE_BITS
                ==> final(self).is_stable(),
    {
        proof {
            if cosw.pattern() <= ONE_BITS && sinw.bits <= ONE_BITS {
                lemma_design_is_bounded(cosw, sinw);
            }
            if cosw.pattern() <= COSINE_LIMIT_BITS && SINE_LIMIT_BITS <= sinw.bits <= ONE_BITS {
                lemma_design_is_stable(cosw, sinw);
            }
        }
        let one = Binary32::from_bits(ONE_BITS);
        let two = Binary32::from_bits(TWO_BITS);
        let q = one.div(Binary32::from_bits(SQRT_2_BITS));
        let alpha = sinw.div(two.mul(q));
        let b0 = one.sub(cosw).div(two);
        let b1 = one.sub(cosw);
        let b2 = one.sub(cosw).div(two);
        let a0 = one.add(alpha);
        self.b0 = b0.div(a0);
        self.b1 = b1.div(a0);
        self.b2 = b2.div(a0);
        self.a1 = Binary32::from_bits(MINUS_TWO_BITS).mul(cosw).div(a0);
        self.a2 = one.sub(alpha).div(a0);
        self.z1 = Binary32::from_bits(ZERO_BITS);
        self.z2 = Binary32::from_bits(ZERO_BITS);
    }

    /// Makes the section a Butterworth highpass and clears its state.
    /// `cosw` and `sinw` are the cosine and sine of the angular frequency.
    /// Within the limits of the module `stability` the section is stable.
    pub fn set_highpass(&mut self, cosw: Binary32, sinw: Binary32)
        ensures
            *final(self) == Biquad::highpass(cosw, sinw),
            final(self).z1.bits == 0,
            final(self).z2.bits == 0,
            cosw.pattern() <= ONE_BITS && sinw.bits <= ONE_BITS ==> final(self).bounded_by_two(),
            cosw.pattern() <= COSINE_LIMIT_BITS && SINE_LIMIT_BITS <= sinw.bits <= ONE_BITS
                ==> final(self).is_stable(),
    {
        proof {
            if cosw.pattern() <= ONE_BITS && sinw.bits <= ONE_BITS {
                lemma_design_is_bounded(cosw, sinw);
            }
            if cosw.pattern() <= COSINE_LIMIT_BITS && SINE_LIMIT_BITS <= sinw.bits <= ONE_BITS {
                lemma_design_is_stable(cosw, sinw);
            }
        }
        let one = Binary32::from_bits(ONE_BITS);
        let two = Binary32::from_bits(TWO_BITS);
        let q = one.div(Binary32::from_bits(SQRT_2_BITS));
        let alpha = sinw.div(two.mul(q));
        let b0 = one.add(cosw).div(two);
        let b1 = one.add(cosw).neg();
        let b2 = one.add(cosw).div(two);
        let a0 = one.add(alpha);
        self.b0 = b0.div(a0);
        self.b1 = b1.div(a0);
        self.b2 = b2.div(a0);
        self.a1 = Binary32::from_bits(MINUS_TWO_BITS).mul(cosw).div(a0);
        self.a2 = one.sub(alpha).div(a0);
        self.z1 = Binary32::from_bits(ZERO_BITS);
        self.z2 = Binary32::from_bits(ZERO_BITS);
    }
}

/// The divisor `2 * Q` of the design formulas lies between one and two.
pub proof fn lemma_twice_q()
    ensures
        ONE_BITS <= value_of(TWO_BITS).product(
            value_of(ONE_BITS).quotient(value_of(SQRT_2_BITS)),
        ).bits <= TWO_BITS,
{
    let one = value_of(ONE_BITS);
    let two = value_of(TWO_BITS);
    let root = value_of(SQRT_2_BITS);
    let q = one.quotient(root);
    lemma_magnitude_of_one();
    lemma_one_plus_one();
    lemma_pow2_pos(148);
    lemma_pow2_pos(149);
    lemma_pow2_pos(150);
    lemma_pow2_adds(149, 149);
    lemma_pow2_adds(148, 150);
    lemma_pow2_adds(150, 148);
    lemma_magnitude_monotone(ONE_BITS as nat, SQRT_2_BITS as nat);
    lemma_magnitude_monotone(SQRT_2_BITS as nat, TWO_BITS as nat);
    // one half is not above q
    lemma_round_ratio_antitone(pow2(149) * pow2(149), root.magnitude(), pow2(150));
    lemma_round_ratio_congruent(pow2(149) * pow2(149), pow2(150), pow2(148), 1);
    lemma_round_exact(0x3f00_0000);
    lemma_quotient_shrinks(one, root);
    assert(0x3f00_0000 <= q.pattern() <= ONE_BITS);
    assert(!q.is_negative());
    // twice q is not below one
    lemma_magnitude_monotone(0x3f00_0000, q.pattern());
    lemma_mul_inequality(pow2(148) as int, q.magnitude() as int, pow2(150) as int);
    lemma_mul_is_commutative(pow2(150) as int, q.magnitude() as int);
    lemma_mul_is_commutative(pow2(150) as int, pow2(148) as int);
    lemma_round_ratio_monotone(pow2(150) * pow2(148), pow2(150) * q.magnitude(), pow2(149));
    lemma_round_ratio_congruent(pow2(150) * pow2(148), pow2(149), pow2(149), 1);
    lemma_round_exact(ONE_BITS as nat);
    lemma_product_shrinks(two, q);
}

/// For the sine of an angle from zero to pi, `alpha` lies between zero and
/// one.
pub proof fn lemma_design_alpha(sinw: Binary32)
    requires
        sinw.bits <= ONE_BITS,
    ensures
        design_alpha(sinw).bits <= ONE_BITS,
{
    lemma_twice_q();
    lemma_quotient_shrinks(
        sinw,
        value_of(TWO_BITS).product(value_of(ONE_BITS).quotient(value_of(SQRT_2_BITS))),
    );
}

/// One plus a number between zero and one lies between one and two.
pub proof fn lemma_common_divisor(alpha: Binary32)
    requires
        alpha.bits <= ONE_BITS,
    ensures
        ONE_BITS <= value_of(ONE_BITS).sum(alpha).bits <= TWO_BITS,
{
    let one = value_of(ONE_BITS);
    let zero = value_of(ZERO_BITS);
    lemma_magnitude_of_one();
    lemma_one_plus_one();
    lemma_sum_monotone(zero, alpha, one);
    lemma_sum_monotone(alpha, one, one);
    lemma_sum_commutes(one, alpha);
    lemma_sum_with_zero(one, zero);
}

/// A number of magnitude at most two, divided by a number between one and
/// two, has magnitude at most two.
proof fn lemma_bounded_quotient(x: Binary32, a0: Binary32)
    requires
        x.pattern() <= TWO_BITS,
        ONE_BITS <= a0.bits <= TWO_BITS,
    ensures
        x.quotient(a0).pattern() <= TWO_BITS,
{
    lemma_quotient_shrinks(x, a0);
}

/// The numerators of the design formulas have magnitude at most two.
proof fn lemma_numerators(cosw: Binary32)
    requires
        cosw.pattern() <= ONE_BITS,
    ensures
        value_of(ONE_BITS).difference(cosw).pattern() <= TWO_BITS,
        value_of(ONE_BITS).sum(cosw).pattern() <= TWO_BITS,
        value_of(ONE_BITS).sum(cosw).negated().pattern() <= TWO_BITS,
        value_of(ONE_BITS).difference(cosw).quotient(value_of(TWO_BITS)).pattern() <= TWO_BITS,
        value_of(ONE_BITS).sum(cosw).quotient(value_of(TWO_BITS)).pattern() <= TWO_BITS,
        value_of(MINUS_TWO_BITS).product(cosw).pattern() <= TWO_BITS,
{
    let one = value_of(ONE_BITS);
    let two = value_of(TWO_BITS);
    lemma_negated(cosw);
    lemma_sum_in_unit_interval(one, cosw);
    lemma_sum_in_unit_interval(one, cosw.negated());
    lemma_negated(one.sum(cosw));
    lemma_product_shrinks(value_of(MINUS_TWO_BITS), cosw);
    lemma_quotient_shrinks(one.difference(cosw), two);
    lemma_quotient_shrinks(one.sum(cosw), two);
}

/// The quotients of the design formulas have magnitude at most two, for a
/// cosine of magnitude at most one, an `alpha` from zero to one and a
/// divisor from one to two.
proof fn lemma_bounded_parts(cosw: Binary32, alpha: Binary32, a0: Binary32)
    requires
        cosw.pattern() <= ONE_BITS,
        alpha.bits <= ONE_BITS,
        ONE_BITS <= a0.bits <= TWO_BITS,
    ensures
        value_of(ONE_BITS).difference(cosw).quotient(value_of(TWO_BITS)).quotient(a0).pattern()
            <= TWO_BITS,
        value_of(ONE_BITS).difference(cosw).quotient(a0).pattern() <= TWO_BITS,
        value_of(ONE_BITS).sum(cosw).quotient(value_of(TWO_BITS)).quotient(a0).pattern()
            <= TWO_BITS,
        value_of(ONE_BITS).sum(cosw).negated().quotient(a0).pattern() <= TWO_BITS,
        value_of(MINUS_TWO_BITS).product(cosw).quotient(a0).pattern() <= TWO_BITS,
        value_of(ONE_BITS).difference(alpha).quotient(a0).pattern() <= TWO_BITS,
{
    let one = value_of(ONE_BITS);
    let two = value_of(TWO_BITS);
    lemma_complement_in_unit_interval(alpha);
    lemma_numerators(cosw);
    lemma_bounded_quotient(one.difference(cosw).quotient(two), a0);
    lemma_bounded_quotient(one.difference(cosw), a0);
    lemma_bounded_quotient(one.sum(cosw).quotient(two), a0);
    lemma_bounded_quotient(one.sum(cosw).negated(), a0);
    lemma_bounded_quotient(value_of(MINUS_TWO_BITS).product(cosw), a0);
    lemma_bounded_quotient(one.difference(alpha), a0);
}

/// For the cosine and the sine of an angle from zero to pi, that is a
/// cosine of magnitude at most one and a sine from zero to one, both
/// designs have finite coefficients, none above two in magnitude.
pub proof fn lemma_design_is_bounded(cosw: Binary32, sinw: Binary32)
    requires
        cosw.pattern() <= ONE_BITS,
        sinw.bits <= ONE_BITS,
    ensures
        Biquad::lowpass(cosw, sinw).bounded_by_two(),
        Biquad::highpass(cosw, sinw).bounded_by_two(),
{
    let alpha = design_alpha(sinw);
    lemma_design_alpha(sinw);
    lemma_common_divisor(alpha);
    lemma_bounded_parts(cosw, alpha, value_of(ONE_BITS).sum(alpha));
}

/// A pass-through section returns a sample with its value unchanged, and
/// bit for bit where the sample is not a zero. After a finite sample it is
/// a pass-through section still.
pub proof fn lemma_pass_through(f: Biquad, x: Binary32)
    requires
        f.passes_through(),
        !x.is_nan(),
    ensures
        f.output(x).same_value(x),
        !x.is_zero() ==> f.output(x) == x,
        x.is_finite() ==> f.advanced(x).passes_through(),
{
    let y = f.output(x);
    lemma_product_by_one(x);
    lemma_sum_with_zero(x, f.z1);
    if x.is_finite() {
        lemma_product_by_zero(f.b1, x);
        lemma_product_by_zero(f.a1, y);
        lemma_product_by_zero(f.b2, x);
        lemma_product_by_zero(f.a2, y);
        lemma_negated(f.a1.product(y));
        lemma_negated(f.a2.product(y));
        lemma_sum_of_zeros(f.b1.product(x), f.a1.product(y).negated());
        lemma_sum_of_zeros(f.b2.product(x), f.a2.product(y).negated());
        lemma_sum_of_zeros(f.b1.product(x).difference(f.a1.product(y)), f.z2);
    }
}

/// A pass-through section returns every sample of a finite sequence with
/// its value unchanged.
pub proof fn lemma_pass_through_sequence(f: Biquad, xs: Seq<Binary32>)
    requires
        f.passes_through(),
        forall|i: int| 0 <= i < xs.len() ==> (#[trigger] xs[i]).is_finite(),
    ensures
        f.after(xs).passes_through(),
        f.response(xs).len() == xs.len(),
        forall|i: int| 0 <= i < xs.len() ==> (#[trigger] f.response(xs)[i]).same_value(xs[i]),
    decreases xs.len(),
{
    if xs.len() > 0 {
        let front = xs.drop_last();
        lemma_pass_through_sequence(f, front);
        lemma_pass_through(f.after(front), xs.last());
        assert forall|i: int| 0 <= i < xs.len() implies (#[trigger] f.response(xs)[i]).same_value(
            xs[i],
        ) by {
            if i < xs.len() - 1 {
                assert(xs.take(i) == front.take(i));
                assert(f.response(front)[i].same_value(front[i]));
            } else {
                assert(xs.take(i) == front);
            }
        }
    }
}

} // verus!
