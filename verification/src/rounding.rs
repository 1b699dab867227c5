//! Rounding of exact rationals to binary32 patterns: to nearest, ties to
//! the even pattern.
//!
//! All quantities are magnitudes counted in units of 2^-149. A rational
//! `n / d` of such units is rounded by dropping as many low binary digits of
//! its integer part as do not fit into 24, and then deciding on what was
//! dropped. The pattern of a kept 24-digit number `m` with `k` digits dropped
//! is `k * 2^23 + m`, which is why all cases, subnormal numbers and overflow
//! to infinity included, come out of one formula.
//!
//! That this is rounding to nearest is proved, not assumed:
//! `lemma_round_is_nearest` shows that no pattern holds a magnitude nearer
//! to the ratio than the rounded one, `lemma_round_ties_to_even` that a tie
//! goes to the even pattern, `lemma_round_exact` that representable values
//! are kept, and `lemma_round_ratio_monotone` that rounding preserves
//! order.
use crate::binary32::pattern_magnitude;
use crate::binary32::INFINITY_PATTERN;
use vstd::arithmetic::div_mod::*;
use vstd::arithmetic::mul::*;
use vstd::arithmetic::power2::*;
use vstd::prelude::*;

verus! {

/// The number of low binary digits of the integer `q` that do not fit into
/// a 24-digit significand.
pub open spec fn rounding_shift(q: nat) -> nat
    decreases q,
{
    if q < 0x100_0000 {
        0
    } else {
        1 + rounding_shift(q / 2)
    }
}

/// The pattern nearest to `n / d`, as if the exponent had no upper limit.
pub open spec fn round_ratio_unbounded(n: nat, d: nat) -> nat {
    let k = rounding_shift(n / d);
    let unit = pow2(k) * d;
    let kept = n / unit;
    let rest = n % unit;
    let p = k * 0x80_0000 + kept;
    if 2 * rest > unit || (2 * rest == unit && p % 2 == 1) {
        p + 1
    } else {
        p
    }
}

/// The pattern nearest to `n / d`; the pattern of infinity where the
/// rounded magnitude exceeds the largest finite one.
pub open spec fn round_ratio(n: nat, d: nat) -> nat {
    let p = round_ratio_unbounded(n, d);
    if p >= 0x7f80_0000 {
        0x7f80_0000
    } else {
        p
    }
}

/// The pattern nearest to `sig * 2^exp`.
pub open spec fn round_scaled(sig: nat, exp: int) -> nat {
    if exp >= 0 {
        round_ratio(sig * pow2(exp as nat), 1)
    } else {
        round_ratio(sig, pow2((-exp) as nat))
    }
}

/// Multiplying numerator and denominator by the same number does not change
/// the rounded pattern.
pub proof fn lemma_round_ratio_scale(n: nat, d: nat, c: nat)
    requires
        d > 0,
        c > 0,
    ensures
        round_ratio_unbounded(n * c, d * c) == round_ratio_unbounded(n, d),
        round_ratio(n * c, d * c) == round_ratio(n, d),
{
    let k = rounding_shift(n / d);
    let unit = pow2(k) * d;
    lemma_pow2_pos(k);
    assert(unit > 0) by {
        lemma_mul_strictly_positive(pow2(k) as int, d as int);
    }
    assert((n * c) / (d * c) == n / d) by {
        lemma_div_multiples_vanish_quotient(c as int, n as int, d as int);
        lemma_mul_is_commutative(n as int, c as int);
        lemma_mul_is_commutative(d as int, c as int);
    }
    assert(pow2(k) * (d * c) == c * unit) by {
        lemma_mul_is_associative(pow2(k) as int, d as int, c as int);
        lemma_mul_is_commutative(unit as int, c as int);
    }
    assert(n * c == c * n) by {
        lemma_mul_is_commutative(n as int, c as int);
    }
    assert((c * n) / (c * unit) == n / unit) by {
        lemma_div_multiples_vanish_quotient(c as int, n as int, unit as int);
    }
    assert((c * n) % (c * unit) == c * (n % unit)) by {
        lemma_truncate_middle(n as int, c as int, unit as int);
    }
    let rest = n % unit;
    assert(2 * (c * rest) > c * unit <==> 2 * rest > unit) by (nonlinear_arith)
        requires
            c > 0,
    ;
    assert(2 * (c * rest) == c * unit <==> 2 * rest == unit) by (nonlinear_arith)
        requires
            c > 0,
    ;
}

/// Equal rationals round to the same pattern.
pub proof fn lemma_round_ratio_congruent(n1: nat, d1: nat, n2: nat, d2: nat)
    requires
        d1 > 0,
        d2 > 0,
        n1 * d2 == n2 * d1,
    ensures
        round_ratio_unbounded(n1, d1) == round_ratio_unbounded(n2, d2),
        round_ratio(n1, d1) == round_ratio(n2, d2),
{
    lemma_round_ratio_scale(n1, d1, d2);
    lemma_round_ratio_scale(n2, d2, d1);
    lemma_mul_is_commutative(d1 as int, d2 as int);
}

/// A magnitude of at most half a unit rounds to zero.
pub proof fn lemma_round_ratio_tiny(n: nat, d: nat)
    requires
        d > 0,
        2 * n <= d,
    ensures
        round_ratio_unbounded(n, d) == 0,
        round_ratio(n, d) == 0,
{
    lemma_small_div_converse(n as int, d as int);
    assert(n / d == 0) by {
        lemma_basic_div(n as int, d as int);
    }
    assert(pow2(0) == 1) by {
        lemma2_to64();
    }
    assert(pow2(0) * d == d) by {
        lemma_mul_basics(d as int);
    }
    assert(n % d == n) by {
        lemma_small_mod(n, d);
    }
}

/// Doubling a ratio that is at least 2^23 units raises its pattern by one
/// exponent step.
pub proof fn lemma_round_ratio_double(n: nat, d: nat)
    requires
        d > 0,
        n >= 0x80_0000 * d,
    ensures
        round_ratio_unbounded(2 * n, d) == round_ratio_unbounded(n, d) + 0x80_0000,
{
    let q = n / d;
    let k = rounding_shift(q);
    let unit = pow2(k) * d;
    lemma_pow2_pos(k);
    assert(unit > 0) by {
        lemma_mul_strictly_positive(pow2(k) as int, d as int);
    }
    assert(q >= 0x80_0000) by {
        lemma_div_is_ordered((0x80_0000 * d) as int, n as int, d as int);
        lemma_div_by_multiple(0x80_0000, d as int);
    }
    let q2 = (2 * n) / d;
    assert(q2 / 2 == q) by {
        lemma_div_denominator((2 * n) as int, d as int, 2);
        lemma_div_multiples_vanish_quotient(2, n as int, d as int);
        lemma_mul_is_commutative(d as int, 2);
    }
    assert(rounding_shift(q2) == k + 1);
    assert(pow2(k + 1) * d == 2 * unit) by {
        lemma_pow2_unfold(k + 1);
        lemma_mul_is_associative(2, pow2(k) as int, d as int);
    }
    assert((2 * n) / (2 * unit) == n / unit) by {
        lemma_div_multiples_vanish_quotient(2, n as int, unit as int);
    }
    assert((2 * n) % (2 * unit) == 2 * (n % unit)) by {
        lemma_truncate_middle(n as int, 2, unit as int);
    }
}

/// Multiplying a ratio that is at least 2^23 units by 2^j raises its
/// pattern by `j` exponent steps.
pub proof fn lemma_round_ratio_shift(n: nat, d: nat, j: nat)
    requires
        d > 0,
        n >= 0x80_0000 * d,
    ensures
        round_ratio_unbounded(n * pow2(j), d) == round_ratio_unbounded(n, d) + j * 0x80_0000,
    decreases j,
{
    if j == 0 {
        assert(pow2(0) == 1) by {
            lemma2_to64();
        }
        assert(n * pow2(0) == n) by {
            lemma_mul_basics(n as int);
        }
    } else {
        let h = (j - 1) as nat;
        lemma_round_ratio_shift(n, d, h);
        lemma_pow2_pos(h);
        assert(n * pow2(j) == 2 * (n * pow2(h))) by {
            lemma_pow2_unfold(j);
            lemma_mul_is_associative(n as int, 2, pow2(h) as int);
            lemma_mul_is_commutative(n as int, 2);
            lemma_mul_is_associative(2, n as int, pow2(h) as int);
        }
        assert(n * pow2(h) >= n) by {
            lemma_mul_inequality(1, pow2(h) as int, n as int);
            lemma_mul_is_commutative(n as int, pow2(h) as int);
        }
        lemma_round_ratio_double(n * pow2(h), d);
    }
}

/// An integer with 24 significant binary digits followed by `e` more has
/// rounding shift `e`.
pub proof fn lemma_rounding_shift_of_range(x: nat, e: nat)
    requires
        0x80_0000 * pow2(e) <= x < 0x100_0000 * pow2(e),
    ensures
        rounding_shift(x) == e,
    decreases e,
{
    if e == 0 {
        assert(pow2(0) == 1) by {
            lemma2_to64();
        }
    } else {
        lemma_pow2_unfold(e);
        lemma_pow2_pos((e - 1) as nat);
        lemma_rounding_shift_of_range(x / 2, (e - 1) as nat);
    }
}

/// The magnitude of a pattern, as a 24-digit significand times a power of
/// two.
pub proof fn lemma_magnitude_split(p: nat)
    requires
        p >= 0x100_0000,
    ensures
        pattern_magnitude(p) == (0x80_0000 + p % 0x80_0000) * pow2((p / 0x80_0000 - 1) as nat),
        0x80_0000 * pow2((p / 0x80_0000 - 1) as nat) <= pattern_magnitude(p),
        pattern_magnitude(p) < 0x100_0000 * pow2((p / 0x80_0000 - 1) as nat),
{
    let e = (p / 0x80_0000 - 1) as nat;
    let m = 0x80_0000 + p % 0x80_0000;
    lemma_pow2_pos(e);
    assert(0x80_0000 * pow2(e) <= m * pow2(e)) by {
        lemma_mul_inequality(0x80_0000, m as int, pow2(e) as int);
    }
    assert(m * pow2(e) < 0x100_0000 * pow2(e)) by {
        lemma_mul_strict_inequality(m as int, 0x100_0000, pow2(e) as int);
    }
}

/// A value that a pattern holds exactly rounds to that pattern.
pub proof fn lemma_round_exact(p: nat)
    requires
        p <= 0x7f80_0000,
    ensures
        round_ratio_unbounded(pattern_magnitude(p), 1) == p,
        round_ratio(pattern_magnitude(p), 1) == p,
{
    let mag = pattern_magnitude(p);
    if p < 0x100_0000 {
        assert(pow2(0) == 1) by {
            lemma2_to64();
        }
    } else {
        let e = (p / 0x80_0000 - 1) as nat;
        let m = 0x80_0000 + p % 0x80_0000;
        lemma_magnitude_split(p);
        lemma_rounding_shift_of_range(mag, e);
        lemma_pow2_pos(e);
        assert(pow2(e) * 1 == pow2(e));
        assert(mag / pow2(e) == m) by {
            lemma_div_by_multiple(m as int, pow2(e) as int);
        }
        assert(mag % pow2(e) == 0) by {
            lemma_mod_multiples_basic(m as int, pow2(e) as int);
        }
    }
}

/// A larger integer has at least as many digits to drop.
pub proof fn lemma_rounding_shift_monotone(q1: nat, q2: nat)
    requires
        q1 <= q2,
    ensures
        rounding_shift(q1) <= rounding_shift(q2),
    decreases q2,
{
    if q2 >= 0x100_0000 && q1 >= 0x100_0000 {
        lemma_rounding_shift_monotone(q1 / 2, q2 / 2);
    }
}

/// What is kept of an integer has at most 24 binary digits, and exactly 24
/// where any digit is dropped.
pub proof fn lemma_kept_range(q: nat)
    ensures
        q / pow2(rounding_shift(q)) < 0x100_0000,
        rounding_shift(q) > 0 ==> q / pow2(rounding_shift(q)) >= 0x80_0000,
    decreases q,
{
    lemma2_to64();
    if q >= 0x100_0000 {
        let k = rounding_shift(q / 2);
        lemma_kept_range(q / 2);
        lemma_pow2_pos(k);
        lemma_pow2_unfold(k + 1);
        lemma_div_denominator(q as int, 2, pow2(k) as int);
    }
}

/// The pattern at or below `n / d`: the rounded pattern is this one or the
/// next.
pub open spec fn floor_ratio(n: nat, d: nat) -> nat {
    let k = rounding_shift(n / d);
    k * 0x80_0000 + n / (pow2(k) * d)
}

/// What is kept of a ratio, seen as what is kept of its integer part.
pub proof fn lemma_kept_of_ratio(n: nat, d: nat)
    requires
        d > 0,
    ensures
        pow2(rounding_shift(n / d)) * d > 0,
        n / (pow2(rounding_shift(n / d)) * d) == (n / d) / pow2(rounding_shift(n / d)),
        n / (pow2(rounding_shift(n / d)) * d) < 0x100_0000,
        rounding_shift(n / d) > 0 ==> n / (pow2(rounding_shift(n / d)) * d) >= 0x80_0000,
{
    let k = rounding_shift(n / d);
    lemma_pow2_pos(k);
    lemma_mul_strictly_positive(pow2(k) as int, d as int);
    lemma_div_denominator(n as int, d as int, pow2(k) as int);
    lemma_mul_is_commutative(pow2(k) as int, d as int);
    lemma_kept_range(n / d);
}

/// The pattern at or below a ratio grows with the ratio; two ratios with
/// the same such pattern drop the same number of digits.
pub proof fn lemma_floor_ratio_monotone(n1: nat, n2: nat, d: nat)
    requires
        d > 0,
        n1 <= n2,
    ensures
        floor_ratio(n1, d) <= floor_ratio(n2, d),
        floor_ratio(n1, d) == floor_ratio(n2, d) ==> rounding_shift(n1 / d) == rounding_shift(
            n2 / d,
        ),
{
    let k1 = rounding_shift(n1 / d);
    let k2 = rounding_shift(n2 / d);
    lemma_div_is_ordered(n1 as int, n2 as int, d as int);
    lemma_rounding_shift_monotone(n1 / d, n2 / d);
    lemma_kept_of_ratio(n1, d);
    lemma_kept_of_ratio(n2, d);
    if k1 == k2 {
        lemma_div_is_ordered(n1 as int, n2 as int, (pow2(k1) * d) as int);
    }
}

/// Rounding preserves order.
pub proof fn lemma_round_ratio_monotone(n1: nat, n2: nat, d: nat)
    requires
        d > 0,
        n1 <= n2,
    ensures
        round_ratio_unbounded(n1, d) <= round_ratio_unbounded(n2, d),
        round_ratio(n1, d) <= round_ratio(n2, d),
{
    lemma_floor_ratio_monotone(n1, n2, d);
    if floor_ratio(n1, d) == floor_ratio(n2, d) {
        let k = rounding_shift(n1 / d);
        let unit = pow2(k) * d;
        lemma_kept_of_ratio(n1, d);
        assert(n1 / unit == n2 / unit);
        lemma_fundamental_div_mod(n1 as int, unit as int);
        lemma_fundamental_div_mod(n2 as int, unit as int);
    }
}

/// Rounding reverses the order of divisors.
pub proof fn lemma_round_ratio_antitone(n: nat, d1: nat, d2: nat)
    requires
        0 < d1 <= d2,
    ensures
        round_ratio_unbounded(n, d2) <= round_ratio_unbounded(n, d1),
        round_ratio(n, d2) <= round_ratio(n, d1),
{
    lemma_round_ratio_scale(n, d2, d1);
    lemma_round_ratio_scale(n, d1, d2);
    lemma_mul_is_commutative(d1 as int, d2 as int);
    lemma_mul_strictly_positive(d1 as int, d2 as int);
    lemma_mul_inequality(d1 as int, d2 as int, n as int);
    lemma_mul_is_commutative(n as int, d1 as int);
    lemma_mul_is_commutative(n as int, d2 as int);
    lemma_round_ratio_monotone(n * d1, n * d2, d1 * d2);
}

/// A larger pattern holds a larger magnitude.
pub proof fn lemma_magnitude_monotone(qa: nat, qb: nat)
    requires
        qa <= qb,
    ensures
        pattern_magnitude(qa) <= pattern_magnitude(qb),
        qa < qb ==> pattern_magnitude(qa) < pattern_magnitude(qb),
{
    lemma2_to64();
    if qb >= 0x100_0000 {
        let e2 = (qb / 0x80_0000 - 1) as nat;
        lemma_magnitude_split(qb);
        lemma_pow2_pos(e2);
        if qa < 0x100_0000 {
            if e2 > 1 {
                lemma_pow2_strictly_increases(1, e2);
            }
        } else {
            let e1 = (qa / 0x80_0000 - 1) as nat;
            lemma_magnitude_split(qa);
            if e1 == e2 {
                let m1 = 0x80_0000 + qa % 0x80_0000;
                let m2 = 0x80_0000 + qb % 0x80_0000;
                lemma_mul_inequality(m1 as int, m2 as int, pow2(e2) as int);
                if qa < qb {
                    lemma_mul_strict_inequality(m1 as int, m2 as int, pow2(e2) as int);
                }
            } else {
                lemma_pow2_unfold(e1 + 1);
                if e1 + 1 < e2 {
                    lemma_pow2_strictly_increases(e1 + 1, e2);
                }
            }
        }
    }
}

/// The magnitude of the pattern of a kept number with `k` digits dropped.
pub proof fn lemma_magnitude_of_kept(k: nat, kept: nat)
    requires
        kept < 0x100_0000,
        k > 0 ==> kept >= 0x80_0000,
    ensures
        pattern_magnitude(k * 0x80_0000 + kept) == kept * pow2(k),
{
    lemma2_to64();
    if k == 0 {
        assert(kept * 1 == kept);
    } else {
        let p = k * 0x80_0000 + kept;
        assert(p / 0x80_0000 == k + 1);
        assert(p % 0x80_0000 == kept - 0x80_0000);
    }
}

/// The magnitude of the pattern after that of a kept number.
pub proof fn lemma_magnitude_of_next(k: nat, kept: nat)
    requires
        kept < 0x100_0000,
        k > 0 ==> kept >= 0x80_0000,
    ensures
        pattern_magnitude(k * 0x80_0000 + kept + 1) == (kept + 1) * pow2(k),
{
    if kept + 1 < 0x100_0000 {
        lemma_magnitude_of_kept(k, kept + 1);
    } else {
        lemma_magnitude_of_kept(k + 1, 0x80_0000);
        lemma_pow2_unfold(k + 1);
        assert(0x80_0000 * (2 * pow2(k)) == 0x100_0000 * pow2(k)) by {
            lemma_mul_is_associative(0x80_0000, 2, pow2(k) as int);
        }
    }
}

/// The distance of the magnitude of pattern `p` from `n / d`, in units of
/// `1 / d`.
pub open spec fn distance(p: nat, n: nat, d: nat) -> int {
    if pattern_magnitude(p) * d >= n {
        pattern_magnitude(p) * d - n
    } else {
        n - pattern_magnitude(p) * d
    }
}

/// The ratio lies between the magnitudes of the pattern below it and the
/// next pattern, and the rounded pattern is the nearer of the two, the
/// even one where both are equally near.
pub proof fn lemma_round_bracket(n: nat, d: nat)
    requires
        d > 0,
    ensures
        pattern_magnitude(floor_ratio(n, d)) * d <= n < pattern_magnitude(floor_ratio(n, d) + 1)
            * d,
        round_ratio_unbounded(n, d) == floor_ratio(n, d) || round_ratio_unbounded(n, d)
            == floor_ratio(n, d) + 1,
        distance(round_ratio_unbounded(n, d), n, d) <= distance(floor_ratio(n, d), n, d),
        distance(round_ratio_unbounded(n, d), n, d) <= distance(floor_ratio(n, d) + 1, n, d),
        distance(floor_ratio(n, d), n, d) == distance(floor_ratio(n, d) + 1, n, d)
            ==> round_ratio_unbounded(n, d) % 2 == 0,
        pattern_magnitude(floor_ratio(n, d) + 1) * d == pattern_magnitude(floor_ratio(n, d)) * d
            + pow2(rounding_shift(n / d)) * d,
{
    let k = rounding_shift(n / d);
    let unit = pow2(k) * d;
    let kept = n / unit;
    let rest = n % unit;
    lemma_kept_of_ratio(n, d);
    lemma_magnitude_of_kept(k, kept);
    lemma_magnitude_of_next(k, kept);
    lemma_fundamental_div_mod(n as int, unit as int);
    lemma_mod_bound(n as int, unit as int);
    assert((kept * pow2(k)) * d == unit * kept) by {
        lemma_mul_is_associative(kept as int, pow2(k) as int, d as int);
        lemma_mul_is_commutative(kept as int, unit as int);
    }
    assert(((kept + 1) * pow2(k)) * d == unit * kept + unit) by {
        lemma_mul_is_associative((kept + 1) as int, pow2(k) as int, d as int);
        lemma_mul_is_distributive_add_other_way(unit as int, kept as int, 1);
        lemma_mul_is_commutative(kept as int, unit as int);
    }
}

/// An integer below 2^(24 + e) has at most `e` digits to drop.
pub proof fn lemma_rounding_shift_below(x: nat, e: nat)
    requires
        x < 0x100_0000 * pow2(e),
    ensures
        rounding_shift(x) <= e,
    decreases e,
{
    if e == 0 {
        assert(pow2(0) == 1) by {
            lemma2_to64();
        }
    } else if x >= 0x100_0000 {
        lemma_pow2_unfold(e);
        lemma_rounding_shift_below(x / 2, (e - 1) as nat);
    }
}

/// Rounding a ratio below 2^(24 + e) units moves it by less than 2^e
/// units.
pub proof fn lemma_round_error(n: nat, d: nat, e: nat)
    requires
        d > 0,
        n < (0x100_0000 * pow2(e)) * d,
    ensures
        pattern_magnitude(round_ratio_unbounded(n, d)) * d < n + pow2(e) * d,
        n < pattern_magnitude(round_ratio_unbounded(n, d)) * d + pow2(e) * d,
        round_ratio_unbounded(n, d) <= (e + 2) * 0x80_0000,
{
    let k = rounding_shift(n / d);
    let low = floor_ratio(n, d);
    lemma_round_bracket(n, d);
    lemma_kept_of_ratio(n, d);
    assert(n / d < 0x100_0000 * pow2(e)) by {
        lemma_div_by_multiple_is_strongly_ordered(
            n as int,
            ((0x100_0000 * pow2(e)) * d) as int,
            (0x100_0000 * pow2(e)) as int,
            d as int,
        );
        lemma_div_by_multiple((0x100_0000 * pow2(e)) as int, d as int);
    }
    lemma_rounding_shift_below(n / d, e);
    if k < e {
        lemma_pow2_strictly_increases(k, e);
    }
    lemma_mul_inequality(pow2(k) as int, pow2(e) as int, d as int);
    lemma_magnitude_monotone(low, low + 1);
    lemma_mul_inequality(
        pattern_magnitude(low) as int,
        pattern_magnitude(low + 1) as int,
        d as int,
    );
}

/// No pattern holds a magnitude nearer to `n / d` than the rounded one.
pub proof fn lemma_round_is_nearest(n: nat, d: nat, p: nat)
    requires
        d > 0,
    ensures
        distance(round_ratio_unbounded(n, d), n, d) <= distance(p, n, d),
{
    let low = floor_ratio(n, d);
    lemma_round_bracket(n, d);
    if p <= low {
        lemma_magnitude_monotone(p, low);
        lemma_mul_inequality(pattern_magnitude(p) as int, pattern_magnitude(low) as int, d as int);
    } else {
        lemma_magnitude_monotone(low + 1, p);
        lemma_mul_inequality(
            pattern_magnitude(low + 1) as int,
            pattern_magnitude(p) as int,
            d as int,
        );
    }
}

/// Where another pattern is as near to `n / d` as the rounded one, the
/// rounded one is even.
pub proof fn lemma_round_ties_to_even(n: nat, d: nat, p: nat)
    requires
        d > 0,
        p != round_ratio_unbounded(n, d),
        distance(p, n, d) == distance(round_ratio_unbounded(n, d), n, d),
    ensures
        round_ratio_unbounded(n, d) % 2 == 0,
{
    let low = floor_ratio(n, d);
    lemma_round_bracket(n, d);
    if p < low {
        lemma_magnitude_monotone(p, low);
        lemma_mul_strict_inequality(
            pattern_magnitude(p) as int,
            pattern_magnitude(low) as int,
            d as int,
        );
    } else if p > low + 1 {
        lemma_magnitude_monotone(low + 1, p);
        lemma_mul_strict_inequality(
            pattern_magnitude(low + 1) as int,
            pattern_magnitude(p) as int,
            d as int,
        );
    }
}

/// Rounds `n / d`, with no upper limit on the exponent.
pub fn round_ratio_wide(n: u64, d: u64) -> (p: u64)
    requires
        0 < d <= 0x4000_0000_0000_0000,
        n < 0x4000_0000_0000_0000,
    ensures
        p == round_ratio_unbounded(n as nat, d as nat),
        p <= 0x2000_0000,
{
    let q = n / d;
    let mut k: u64 = 0;
    let mut unit: u64 = d;
    let mut qq: u64 = q;
    proof {
        lemma2_to64();
        lemma2_to64_rest();
        assert(pow2(0) * d == d) by {
            lemma_mul_basics(d as int);
        }
    }
    while qq >= 0x100_0000
        invariant
            0 < d,
            n < 0x4000_0000_0000_0000,
            k <= 62,
            0 < unit <= 0x4000_0000_0000_0000,
            unit == pow2(k as nat) * d,
            qq == n / unit,
            qq < pow2((62 - k) as nat),
            rounding_shift((n / d) as nat) == k + rounding_shift(qq as nat),
        decreases qq,
    {
        proof {
            lemma2_to64();
            if k == 62 {
                assert(false);
            }
            lemma_pow2_unfold((62 - k) as nat);
            lemma_pow2_unfold((k + 1) as nat);
            lemma_fundamental_div_mod(n as int, unit as int);
            lemma_mod_bound(n as int, unit as int);
            assert(unit * 0x100_0000 <= unit * qq) by {
                lemma_mul_inequality(0x100_0000, qq as int, unit as int);
                lemma_mul_is_commutative(unit as int, qq as int);
                lemma_mul_is_commutative(unit as int, 0x100_0000);
            }
            lemma_div_denominator(n as int, unit as int, 2);
            assert(pow2((k + 1) as nat) * d == 2 * unit) by {
                lemma_mul_is_associative(2, pow2(k as nat) as int, d as int);
            }
            lemma_mul_is_commutative(unit as int, 2);
        }
        qq = qq / 2;
        unit = unit * 2;
        k = k + 1;
    }
    let kept = n / unit;
    let rest = n % unit;
    let p = k * 0x80_0000 + kept;
    if 2 * rest > unit || (2 * rest == unit && p % 2 == 1) {
        p + 1
    } else {
        p
    }
}

/// Rounds `sig * 2^exp` to the nearest pattern.
pub fn round_dyadic(sig: u64, exp: i32) -> (p: u32)
    requires
        sig < 0x4000_0000_0000_0000,
        -4096 < exp < 4096,
    ensures
        p == round_scaled(sig as nat, exp as int),
        p <= INFINITY_PATTERN,
{
    if sig == 0 {
        proof {
            if exp >= 0 {
                assert(0 * pow2(exp as nat) == 0) by {
                    lemma_mul_basics(pow2(exp as nat) as int);
                }
                lemma_round_ratio_tiny(0, 1);
            } else {
                lemma_pow2_pos((-exp) as nat);
                lemma_round_ratio_tiny(0, pow2((-exp) as nat));
            }
        }
        return 0;
    }
    if exp >= 0 {
        let mut s: u64 = sig;
        let mut e: i32 = exp;
        while s < 0x80_0000 && e > 0
            invariant
                0 < s < 0x4000_0000_0000_0000,
                0 <= e <= exp,
                s * pow2(e as nat) == sig * pow2(exp as nat),
            decreases e,
        {
            proof {
                lemma_pow2_unfold(e as nat);
                assert((s * 2) * pow2((e - 1) as nat) == s * (2 * pow2((e - 1) as nat))) by {
                    lemma_mul_is_associative(s as int, 2, pow2((e - 1) as nat) as int);
                }
            }
            s = s * 2;
            e = e - 1;
        }
        let unclamped = round_ratio_wide(s, 1);
        proof {
            if e > 0 {
                lemma_round_ratio_shift(s as nat, 1, e as nat);
            } else {
                assert(pow2(0) == 1) by {
                    lemma2_to64();
                }
                assert(s * pow2(0) == s) by {
                    lemma_mul_basics(s as int);
                }
            }
        }
        let total: u64 = unclamped + (e as u64) * 0x80_0000;
        if total >= 0x7f80_0000 {
            INFINITY_PATTERN
        } else {
            total as u32
        }
    } else {
        let down: i32 = -exp;
        if down >= 63 {
            proof {
                lemma2_to64_rest();
                if down > 63 {
                    lemma_pow2_strictly_increases(63, down as nat);
                }
                lemma_round_ratio_tiny(sig as nat, pow2(down as nat));
            }
            0
        } else {
            proof {
                lemma2_to64_rest();
                lemma_pow2_pos(down as nat);
                lemma_pow2_strictly_increases(down as nat, 63);
                assert(1 * pow2(down as nat) == pow2(down as nat)) by {
                    lemma_mul_basics(pow2(down as nat) as int);
                }
                vstd::bits::lemma_u64_shl_is_mul(1, down as u64);
                if down < 62 {
                    lemma_pow2_strictly_increases(down as nat, 62);
                }
            }
            let d: u64 = 1u64 << (down as u64);
            let unclamped = round_ratio_wide(sig, d);
            if unclamped >= 0x7f80_0000 {
                INFINITY_PATTERN
            } else {
                unclamped as u32
            }
        }
    }
}

} // verus!
