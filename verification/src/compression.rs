//! The dynamics of one band: an envelope follower and a gain computer, both
//! smoothed in the decibel domain with separate attack and release poles.
//!
//! Logarithms and powers are evaluated by the caller. One sample takes
//! four steps: `rectified_level` picks the level whose base-10 logarithm is
//! wanted, `level_db` turns the logarithm into decibels,
//! `SingleBandCompressor::process_sample` advances the two smoothers and
//! returns the gain in decibels, and `apply_gain` scales the sample by the
//! power of ten of `gain_exponent`.
use crate::binary32::Binary32;
use crate::biquad::value_of;
use crate::biquad::ONE_BITS;
use crate::biquad::ZERO_BITS;
use crate::identities::lemma_complement_in_unit_interval;
use crate::identities::lemma_difference_of_equals;
use crate::identities::lemma_magnitude_of_one;
use crate::identities::lemma_negated;
use crate::identities::lemma_product_by_zero;
use crate::identities::lemma_product_keeps_sign;
use crate::identities::lemma_quotient_shrinks;
use crate::identities::lemma_sum_keeps_sign;
use crate::identities::lemma_sum_monotone;
use crate::identities::lemma_quotient_by_one;
use crate::identities::lemma_sum_of_zeros;
use crate::identities::lemma_sum_with_zero;
use vstd::prelude::*;

verus! {

/// Pattern of -100.0: the level, in decibels, that stands for silence.
pub const FLOOR_DB_BITS: u32 = 0xc2c8_0000;

/// Pattern of 20.0.
pub const TWENTY_BITS: u32 = 0x41a0_0000;

/// Pattern of 1000.0.
pub const THOUSAND_BITS: u32 = 0x447a_0000;

/// Pattern of 0.0001: the shortest time constant, in seconds.
pub const MIN_SECONDS_BITS: u32 = 0x38d1_b717;

/// Pattern of -1.0.
pub const MINUS_ONE_BITS: u32 = 0xbf80_0000;

/// What a band's compressor works with during one block.
#[derive(Clone, Copy, Debug)]
pub struct CompressorSettings {
    pub threshold_db: Binary32,
    pub ratio: Binary32,
    pub attack_coef: Binary32,
    pub release_coef: Binary32,
    pub makeup_db: Binary32,
}

/// A band's parameters as the host resolves them for one block.
#[derive(Clone, Copy, Debug)]
pub struct BandParams {
    pub threshold_db: Binary32,
    pub ratio: Binary32,
    pub attack_ms: Binary32,
    pub release_ms: Binary32,
    pub makeup_db: Binary32,
}

/// The state of one band of one channel.
#[derive(Clone, Copy, Debug)]
pub struct SingleBandCompressor {
    pub envelope: Binary32,
    pub gain_reduction_db: Binary32,
}

/// One step of a one-pole smoother: `state * coef + target * (1 - coef)`.
pub open spec fn smoothed(state: Binary32, target: Binary32, coef: Binary32) -> Binary32 {
    state.product(coef).sum(target.product(value_of(ONE_BITS).difference(coef)))
}

/// The envelope after a sample of level `level_db`: it moves towards the
/// level with the attack pole where the level is above it, with the
/// release pole otherwise.
pub open spec fn followed_envelope(
    envelope: Binary32,
    level_db: Binary32,
    settings: CompressorSettings,
) -> Binary32 {
    if envelope.less(level_db) {
        smoothed(envelope, level_db, settings.attack_coef)
    } else {
        smoothed(envelope, level_db, settings.release_coef)
    }
}

/// The static curve: above the threshold,
/// `-(envelope - threshold) * (1 - 1 / max(ratio, 1))`; zero otherwise.
pub open spec fn target_reduction_db(envelope: Binary32, settings: CompressorSettings) -> Binary32 {
    if settings.threshold_db.less(envelope) {
        envelope.difference(settings.threshold_db).product(
            value_of(ONE_BITS).difference(
                value_of(ONE_BITS).quotient(settings.ratio.larger(value_of(ONE_BITS))),
            ),
        ).negated()
    } else {
        value_of(ZERO_BITS)
    }
}

/// The gain reduction after a step towards `target`: with the attack pole
/// where the target asks for more attenuation, with the release pole
/// otherwise.
pub open spec fn followed_reduction(
    reduction: Binary32,
    target: Binary32,
    settings: CompressorSettings,
) -> Binary32 {
    if target.less(reduction) {
        smoothed(reduction, target, settings.attack_coef)
    } else {
        smoothed(reduction, target, settings.release_coef)
    }
}

/// The level whose logarithm the detector wants: the magnitude of the
/// input where that is above zero, none for silence (and for a NaN).
pub open spec fn rectified(input: Binary32) -> Option<Binary32> {
    if value_of(ZERO_BITS).less(input.magnitude_of()) {
        Some(input.magnitude_of())
    } else {
        None
    }
}

/// The level in decibels: 20 times the base-10 logarithm, or the floor for
/// silence.
pub open spec fn decibels(log10_level: Option<Binary32>) -> Binary32 {
    match log10_level {
        Some(l) => l.product(value_of(TWENTY_BITS)),
        None => value_of(FLOOR_DB_BITS),
    }
}

/// A time in milliseconds as seconds, at least 0.0001.
pub open spec fn time_constant_seconds(ms: Binary32) -> Binary32 {
    ms.quotient(value_of(THOUSAND_BITS)).larger(value_of(MIN_SECONDS_BITS))
}

/// The exponent `-1 / (seconds * sample_rate)` whose natural exponential is
/// the per-sample pole of a time constant.
pub open spec fn pole_exponent_of(ms: Binary32, sample_rate: Binary32) -> Binary32 {
    value_of(MINUS_ONE_BITS).quotient(time_constant_seconds(ms).product(sample_rate))
}

impl BandParams {
    /// The settings for a block, given the two poles.
    pub open spec fn resolved(self, attack_coef: Binary32, release_coef: Binary32)
        -> CompressorSettings {
        CompressorSettings {
            threshold_db: self.threshold_db,
            ratio: self.ratio.larger(value_of(ONE_BITS)),
            attack_coef,
            release_coef,
            makeup_db: self.makeup_db,
        }
    }

    /// The exponent for the attack pole at the given sample rate.
    pub fn attack_exponent(&self, sample_rate: Binary32) -> (x: Binary32)
        ensures
            x == pole_exponent_of(self.attack_ms, sample_rate),
    {
        pole_exponent(self.attack_ms, sample_rate)
    }

    /// The exponent for the release pole at the given sample rate.
    pub fn release_exponent(&self, sample_rate: Binary32) -> (x: Binary32)
        ensures
            x == pole_exponent_of(self.release_ms, sample_rate),
    {
        pole_exponent(self.release_ms, sample_rate)
    }

    /// The settings for a block: the ratio is raised to at least 1, the
    /// poles are the natural exponentials of the two exponents.
    pub fn settings(&self, attack_coef: Binary32, release_coef: Binary32) -> (s: CompressorSettings)
        ensures
            s == self.resolved(attack_coef, release_coef),
    {
        CompressorSettings {
            threshold_db: self.threshold_db,
            ratio: self.ratio.max(Binary32::from_bits(ONE_BITS)),
            attack_coef,
            release_coef,
            makeup_db: self.makeup_db,
        }
    }
}

/// `-1 / (max(ms / 1000, 0.0001) * sample_rate)`.
pub fn pole_exponent(ms: Binary32, sample_rate: Binary32) -> (x: Binary32)
    ensures
        x == pole_exponent_of(ms, sample_rate),
{
    let seconds = ms.div(Binary32::from_bits(THOUSAND_BITS)).max(
        Binary32::from_bits(MIN_SECONDS_BITS),
    );
    Binary32::from_bits(MINUS_ONE_BITS).div(seconds.mul(sample_rate))
}

/// First step of a sample: the level to take the logarithm of, if any.
pub fn rectified_level(input: Binary32) -> (level: Option<Binary32>)
    ensures
        level == rectified(input),
{
    let magnitude = input.abs();
    if magnitude.gt(Binary32::from_bits(ZERO_BITS)) {
        Some(magnitude)
    } else {
        None
    }
}

/// Second step of a sample: the level in decibels from its base-10 logarithm.
pub fn level_db(log10_level: Option<Binary32>) -> (db: Binary32)
    ensures
        db == decibels(log10_level),
{
    match log10_level {
        Some(l) => l.mul(Binary32::from_bits(TWENTY_BITS)),
        None => Binary32::from_bits(FLOOR_DB_BITS),
    }
}

/// The exponent `gain_db / 20` whose power of ten is the linear gain.
pub fn gain_exponent(gain_db: Binary32) -> (x: Binary32)
    ensures
        x == gain_db.quotient(value_of(TWENTY_BITS)),
{
    gain_db.div(Binary32::from_bits(TWENTY_BITS))
}

/// Last step of a sample: the sample scaled by the linear gain.
pub fn apply_gain(input: Binary32, gain: Binary32) -> (out: Binary32)
    ensures
        out == input.product(gain),
{
    input.mul(gain)
}

impl SingleBandCompressor {
    /// The state before any sample: the envelope at the floor, no gain
    /// reduction.
    pub open spec fn initial() -> SingleBandCompressor {
        SingleBandCompressor {
            envelope: value_of(FLOOR_DB_BITS),
            gain_reduction_db: value_of(ZERO_BITS),
        }
    }

    /// The state after a sample of level `level_db`.
    pub open spec fn advanced(self, level_db: Binary32, settings: CompressorSettings)
        -> SingleBandCompressor {
        let envelope = followed_envelope(self.envelope, level_db, settings);
        SingleBandCompressor {
            envelope,
            gain_reduction_db: followed_reduction(
                self.gain_reduction_db,
                target_reduction_db(envelope, settings),
                settings,
            ),
        }
    }

    /// The gain in decibels that the state asks for: reduction plus makeup.
    pub open spec fn gain_db(self, settings: CompressorSettings) -> Binary32 {
        self.gain_reduction_db.sum(settings.makeup_db)
    }

    pub fn new() -> (r: SingleBandCompressor)
        ensures
            r == SingleBandCompressor::initial(),
    {
        SingleBandCompressor {
            envelope: Binary32::from_bits(FLOOR_DB_BITS),
            gain_reduction_db: Binary32::from_bits(ZERO_BITS),
        }
    }

    /// Third step of a sample: advances the envelope and the gain reduction by
    /// a sample of level `level_db`, and returns the gain in decibels.
    pub fn process_sample(&mut self, level_db: Binary32, settings: &CompressorSettings) -> (gain_db:
        Binary32)
        ensures
            *final(self) == old(self).advanced(level_db, *settings),
            gain_db == final(self).gain_db(*settings),
    {
        let one = Binary32::from_bits(ONE_BITS);
        if level_db.gt(self.envelope) {
            self.envelope = self.envelope.mul(settings.attack_coef).add(
                level_db.mul(one.sub(settings.attack_coef)),
            );
        } else {
            self.envelope = self.envelope.mul(settings.release_coef).add(
                level_db.mul(one.sub(settings.release_coef)),
            );
        }
        let target = if self.envelope.gt(settings.threshold_db) {
            self.envelope.sub(settings.threshold_db).mul(
                one.sub(one.div(settings.ratio.max(one))),
            ).neg()
        } else {
            Binary32::from_bits(ZERO_BITS)
        };
        if target.lt(self.gain_reduction_db) {
            self.gain_reduction_db = self.gain_reduction_db.mul(settings.attack_coef).add(
                target.mul(one.sub(settings.attack_coef)),
            );
        } else {
            self.gain_reduction_db = self.gain_reduction_db.mul(settings.release_coef).add(
                target.mul(one.sub(settings.release_coef)),
            );
        }
        self.gain_reduction_db.add(settings.makeup_db)
    }
}

impl Default for SingleBandCompressor {
    fn default() -> (r: SingleBandCompressor)
        ensures
            r == SingleBandCompressor::initial(),
    {
        SingleBandCompressor::new()
    }
}

/// At a ratio of one the static curve asks for no reduction, wherever the
/// envelope is finitely far from the threshold.
pub proof fn lemma_unity_ratio(envelope: Binary32, settings: CompressorSettings)
    requires
        settings.ratio.bits == ONE_BITS,
        settings.threshold_db.less(envelope) ==> envelope.difference(
            settings.threshold_db,
        ).is_finite(),
    ensures
        target_reduction_db(envelope, settings).is_zero(),
{
    let one = value_of(ONE_BITS);
    lemma_magnitude_of_one();
    lemma_quotient_by_one(one);
    lemma_difference_of_equals(one);
    if settings.threshold_db.less(envelope) {
        let excess = envelope.difference(settings.threshold_db);
        lemma_product_by_zero(one.difference(one), excess);
        lemma_negated(excess.product(one.difference(one)));
    }
}

/// Whether a number can be a smoothing pole: whether it lies between zero
/// and one.
pub open spec fn is_pole(c: Binary32) -> bool {
    !c.is_nan() && 0 <= c.ordinal() <= ONE_BITS
}

/// The slope `1 - 1 / max(ratio, 1)` of the static curve lies between zero
/// and one, whatever the ratio.
pub proof fn lemma_slope(ratio: Binary32)
    ensures
        is_pole(
            value_of(ONE_BITS).difference(
                value_of(ONE_BITS).quotient(ratio.larger(value_of(ONE_BITS))),
            ),
        ),
{
    let one = value_of(ONE_BITS);
    let divisor = ratio.larger(one);
    lemma_magnitude_of_one();
    if divisor.is_finite() {
        lemma_quotient_shrinks(one, divisor);
    }
    lemma_complement_in_unit_interval(one.quotient(divisor));
}

/// The static curve never asks for a gain: where the envelope is finitely
/// far from the threshold, the target is finite and not above zero.
pub proof fn lemma_target_never_positive(envelope: Binary32, settings: CompressorSettings)
    requires
        settings.threshold_db.less(envelope) ==> envelope.difference(
            settings.threshold_db,
        ).is_finite(),
    ensures
        target_reduction_db(envelope, settings).is_finite(),
        target_reduction_db(envelope, settings).ordinal() <= 0,
{
    let one = value_of(ONE_BITS);
    if settings.threshold_db.less(envelope) {
        let excess = envelope.difference(settings.threshold_db);
        let slope = one.difference(one.quotient(settings.ratio.larger(one)));
        lemma_slope(settings.ratio);
        lemma_negated(settings.threshold_db);
        lemma_negated(excess);
        lemma_sum_monotone(settings.threshold_db, envelope, settings.threshold_db.negated());
        lemma_difference_of_equals(settings.threshold_db);
        lemma_product_keeps_sign(excess.negated(), slope);
        lemma_negated(excess.product(slope));
        assert(excess.negated().product(slope) == excess.product(slope).negated());
    }
}

/// One smoothing step between finite numbers that are not above zero ends
/// not above zero.
pub proof fn lemma_smoothed_keeps_sign(state: Binary32, target: Binary32, coef: Binary32)
    requires
        state.is_finite(),
        state.ordinal() <= 0,
        target.is_finite(),
        target.ordinal() <= 0,
        is_pole(coef),
    ensures
        !smoothed(state, target, coef).is_nan(),
        smoothed(state, target, coef).ordinal() <= 0,
{
    let one = value_of(ONE_BITS);
    lemma_complement_in_unit_interval(coef);
    lemma_product_keeps_sign(state, coef);
    lemma_product_keeps_sign(target, one.difference(coef));
    lemma_sum_keeps_sign(state.product(coef), target.product(one.difference(coef)));
}

/// The gain reduction never turns into a gain: from a finite reduction
/// that is not above zero, a sample leads to a reduction that is not above
/// zero.
pub proof fn lemma_reduction_never_positive(
    c: SingleBandCompressor,
    level_db: Binary32,
    settings: CompressorSettings,
)
    requires
        c.gain_reduction_db.is_finite(),
        c.gain_reduction_db.ordinal() <= 0,
        is_pole(settings.attack_coef),
        is_pole(settings.release_coef),
        settings.threshold_db.less(followed_envelope(c.envelope, level_db, settings))
            ==> followed_envelope(c.envelope, level_db, settings).difference(
            settings.threshold_db,
        ).is_finite(),
    ensures
        !c.advanced(level_db, settings).gain_reduction_db.is_nan(),
        c.advanced(level_db, settings).gain_reduction_db.ordinal() <= 0,
{
    let envelope = followed_envelope(c.envelope, level_db, settings);
    let target = target_reduction_db(envelope, settings);
    lemma_target_never_positive(envelope, settings);
    lemma_smoothed_keeps_sign(c.gain_reduction_db, target, settings.attack_coef);
    lemma_smoothed_keeps_sign(c.gain_reduction_db, target, settings.release_coef);
}

/// While the envelope does not rise above the threshold, a compressor
/// without gain reduction keeps none, and its gain is the makeup gain,
/// whatever the ratio.
pub proof fn lemma_no_compression(
    c: SingleBandCompressor,
    level_db: Binary32,
    settings: CompressorSettings,
)
    requires
        c.gain_reduction_db.is_zero(),
        !settings.threshold_db.less(followed_envelope(c.envelope, level_db, settings)),
        is_pole(settings.release_coef),
        !settings.makeup_db.is_nan(),
    ensures
        c.advanced(level_db, settings).gain_reduction_db.is_zero(),
        c.advanced(level_db, settings).gain_db(settings).same_value(settings.makeup_db),
        !settings.makeup_db.is_zero() ==> c.advanced(level_db, settings).gain_db(settings)
            == settings.makeup_db,
{
    let one = value_of(ONE_BITS);
    let zero = value_of(ZERO_BITS);
    let release = settings.release_coef;
    lemma_complement_in_unit_interval(release);
    lemma_product_by_zero(c.gain_reduction_db, release);
    lemma_product_by_zero(zero, one.difference(release));
    lemma_sum_of_zeros(c.gain_reduction_db.product(release), zero.product(one.difference(release)));
    lemma_sum_with_zero(settings.makeup_db, c.advanced(level_db, settings).gain_reduction_db);
}

} // verus!
