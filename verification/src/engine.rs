//! The multiband engine: per-channel banks of crossover filters and band
//! compressors, the policy by which the split frequencies follow their
//! parameters, and the steps of one sample.
//!
//! A block runs as follows. `BlockParams::pole_exponents` and
//! `BlockParams::settings` resolve the parameters, around the caller's
//! exponentials. `update_crossovers` decides whether the filters are to be
//! designed anew; if so the caller evaluates cosine and sine of the two
//! angles and hands them to `retune`. Then, for each sample of each channel,
//! `analyse` splits the sample and rectifies the bands, the caller takes
//! logarithms, `compress` advances the band compressors and returns the
//! gain exponents, the caller takes powers of ten, and `mix` scales and sums
//! the bands. `finish_block` updates the peak meter.
use crate::binary32::Binary32;
use crate::biquad::value_of;
use crate::biquad::ZERO_BITS;
use crate::compression::decibels;
use crate::compression::gain_exponent;
use crate::compression::level_db;
use crate::compression::pole_exponent_of;
use crate::compression::rectified;
use crate::compression::rectified_level;
use crate::compression::BandParams;
use crate::compression::CompressorSettings;
use crate::compression::SingleBandCompressor;
use crate::compression::TWENTY_BITS;
use crate::crossover::Bands;
use crate::crossover::CrossoverFilters;
use crate::crossover::Tuning;
use crate::identities::lemma_sum_monotone;
use crate::meter::silent_meter;
use crate::meter::PeakMeter;
use vstd::prelude::*;

verus! {

/// Pattern of 0.5.
pub const HALF_BITS: u32 = 0x3f00_0000;

/// Pattern of 10.0: the lowest split frequency, and the least distance of
/// the two split frequencies, in Hz.
pub const TEN_BITS: u32 = 0x4120_0000;

/// Pattern of 0.8: the low split stays below this part of the Nyquist
/// frequency.
pub const LOW_CAP_BITS: u32 = 0x3f4c_cccd;

/// Pattern of 0.99: the high split stays below this part of the Nyquist
/// frequency.
pub const HIGH_CAP_BITS: u32 = 0x3f7d_70a4;

/// Pattern of 0.5: a requested frequency is applied where it differs from
/// the applied one by more than this many Hz.
pub const HYSTERESIS_BITS: u32 = 0x3f00_0000;

/// Pattern of 44100.0: the sample rate of an engine before `initialize`.
pub const DEFAULT_SAMPLE_RATE_BITS: u32 = 0x472c_4400;

/// Pattern of 1.0: the decay weight of an engine before `initialize`.
pub const DEFAULT_DECAY_WEIGHT_BITS: u32 = 0x3f80_0000;

/// The compressors of the three bands of one channel.
#[derive(Clone, Copy, Debug)]
pub struct BandCompressors {
    pub low: SingleBandCompressor,
    pub mid: SingleBandCompressor,
    pub high: SingleBandCompressor,
}

/// The settings of the three bands for one block.
#[derive(Clone, Copy, Debug)]
pub struct BandSettings {
    pub low: CompressorSettings,
    pub mid: CompressorSettings,
    pub high: CompressorSettings,
}

/// The parameters of the three bands as the host resolves them.
#[derive(Clone, Copy, Debug)]
pub struct BlockParams {
    pub low: BandParams,
    pub mid: BandParams,
    pub high: BandParams,
}

/// Attack and release pole of one band, or the exponents whose natural
/// exponentials they are.
#[derive(Clone, Copy, Debug)]
pub struct PolePair {
    pub attack: Binary32,
    pub release: Binary32,
}

/// The poles of the three bands, or their exponents.
#[derive(Clone, Copy, Debug)]
pub struct Poles {
    pub low: PolePair,
    pub mid: PolePair,
    pub high: PolePair,
}

/// Per band, the level that a logarithm is wanted of, or the logarithm;
/// none for a silent band.
#[derive(Clone, Copy, Debug)]
pub struct BandLevels {
    pub low: Option<Binary32>,
    pub mid: Option<Binary32>,
    pub high: Option<Binary32>,
}

/// What `analyse` finds in one sample: the band samples and the levels to
/// take logarithms of.
#[derive(Clone, Copy, Debug)]
pub struct Frame {
    pub bands: Bands,
    pub levels: BandLevels,
}

/// The engine.
pub struct MultibandCompressor {
    /// The weight by which the meter falls per block.
    pub peak_meter_decay_weight: Binary32,
    /// The meter, shared with the display.
    pub peak_meter: PeakMeter,
    pub sample_rate: Binary32,
    /// The crossover filters, one per channel.
    pub filters: Vec<CrossoverFilters>,
    /// The band compressors, one triple per channel.
    pub compressors: Vec<BandCompressors>,
    /// The low/mid split frequency that the filters were last designed for.
    pub current_lo_mid: Binary32,
    /// The mid/high split frequency that the filters were last designed for.
    pub current_mid_hi: Binary32,
}

/// Whether `requested` lies further than `threshold` from `current`.
pub open spec fn differs_by_more(requested: Binary32, current: Binary32, threshold: Binary32)
    -> bool {
    threshold.less(requested.difference(current).magnitude_of())
}

/// The frequency that is applied after a request.
pub open spec fn applied_after(current: Binary32, requested: Binary32) -> Binary32 {
    if differs_by_more(requested, current, value_of(HYSTERESIS_BITS)) {
        requested
    } else {
        current
    }
}

/// The upper limit of the low split: 0.8 of the Nyquist frequency.
pub open spec fn low_cap(sample_rate: Binary32) -> Binary32 {
    sample_rate.product(value_of(HALF_BITS)).product(value_of(LOW_CAP_BITS))
}

/// The upper limit of the high split: 0.99 of the Nyquist frequency.
pub open spec fn high_cap(sample_rate: Binary32) -> Binary32 {
    sample_rate.product(value_of(HALF_BITS)).product(value_of(HIGH_CAP_BITS))
}

/// Whether a sample rate leaves room for both splits: 10 Hz is not above
/// the low limit, and the low limit plus 10 Hz is not above the high one.
pub open spec fn tunable(sample_rate: Binary32) -> bool {
    &&& low_cap(sample_rate).is_finite()
    &&& high_cap(sample_rate).is_finite()
    &&& !low_cap(sample_rate).less(value_of(TEN_BITS))
    &&& !high_cap(sample_rate).less(low_cap(sample_rate).sum(value_of(TEN_BITS)))
}

/// The low split that is applied for a requested one: limited to the range
/// from 10 Hz to the low limit.
pub open spec fn low_split(lo_mid: Binary32, sample_rate: Binary32) -> Binary32 {
    lo_mid.clamped(value_of(TEN_BITS), low_cap(sample_rate))
}

/// The high split that is applied for requested ones: limited to the range
/// from 10 Hz above the low split to the high limit.
pub open spec fn high_split(lo_mid: Binary32, mid_hi: Binary32, sample_rate: Binary32)
    -> Binary32 {
    mid_hi.clamped(
        low_split(lo_mid, sample_rate).sum(value_of(TEN_BITS)),
        high_cap(sample_rate),
    )
}

/// The output sample: the bands scaled by their gains and summed, low and
/// mid first.
pub open spec fn mixed(bands: Bands, gains: Bands) -> Binary32 {
    bands.low.product(gains.low).sum(bands.mid.product(gains.mid)).sum(
        bands.high.product(gains.high),
    )
}

/// Whether a requested frequency is to be applied: whether it differs from
/// the applied one by more than `threshold`.
pub fn should_recompute(requested: Binary32, current: Binary32, threshold: Binary32) -> (r: bool)
    ensures
        r == differs_by_more(requested, current, threshold),
        r ==> !requested.is_nan(),
{
    requested.sub(current).abs().gt(threshold)
}

/// Whether the engine can place its splits at this sample rate.
pub fn supports_crossovers(sample_rate: Binary32) -> (r: bool)
    ensures
        r == tunable(sample_rate),
{
    let nyquist = sample_rate.mul(Binary32::from_bits(HALF_BITS));
    let low = nyquist.mul(Binary32::from_bits(LOW_CAP_BITS));
    let high = nyquist.mul(Binary32::from_bits(HIGH_CAP_BITS));
    let ten = Binary32::from_bits(TEN_BITS);
    low.is_finite_value() && high.is_finite_value() && !low.lt(ten) && !high.lt(low.add(ten))
}

/// Scales the bands by their linear gains and sums them.
pub fn mix(bands: &Bands, gains: &Bands) -> (out: Binary32)
    ensures
        out == mixed(*bands, *gains),
{
    bands.low.mul(gains.low).add(bands.mid.mul(gains.mid)).add(bands.high.mul(gains.high))
}

/// The block's peak after an output sample: the larger of the peak so far
/// and the sample's magnitude.
pub fn track_peak(peak: Binary32, out: Binary32) -> (r: Binary32)
    ensures
        r == peak.larger(out.magnitude_of()),
{
    peak.max(out.abs())
}

impl BandLevels {
    /// The levels, in decibels, that these logarithms stand for.
    pub open spec fn in_decibels(self) -> Bands {
        Bands { low: decibels(self.low), mid: decibels(self.mid), high: decibels(self.high) }
    }
}

impl BlockParams {
    /// The exponents whose natural exponentials are the poles.
    pub open spec fn exponents(self, sample_rate: Binary32) -> Poles {
        Poles {
            low: PolePair {
                attack: pole_exponent_of(self.low.attack_ms, sample_rate),
                release: pole_exponent_of(self.low.release_ms, sample_rate),
            },
            mid: PolePair {
                attack: pole_exponent_of(self.mid.attack_ms, sample_rate),
                release: pole_exponent_of(self.mid.release_ms, sample_rate),
            },
            high: PolePair {
                attack: pole_exponent_of(self.high.attack_ms, sample_rate),
                release: pole_exponent_of(self.high.release_ms, sample_rate),
            },
        }
    }

    /// The settings of the block for the given poles.
    pub open spec fn resolved(self, poles: Poles) -> BandSettings {
        BandSettings {
            low: self.low.resolved(poles.low.attack, poles.low.release),
            mid: self.mid.resolved(poles.mid.attack, poles.mid.release),
            high: self.high.resolved(poles.high.attack, poles.high.release),
        }
    }

    /// The six exponents `-1 / (seconds * sample_rate)` of the block.
    pub fn pole_exponents(&self, sample_rate: Binary32) -> (x: Poles)
        ensures
            x == self.exponents(sample_rate),
    {
        Poles {
            low: PolePair {
                attack: self.low.attack_exponent(sample_rate),
                release: self.low.release_exponent(sample_rate),
            },
            mid: PolePair {
                attack: self.mid.attack_exponent(sample_rate),
                release: self.mid.release_exponent(sample_rate),
            },
            high: PolePair {
                attack: self.high.attack_exponent(sample_rate),
                release: self.high.release_exponent(sample_rate),
            },
        }
    }

    /// The settings of the three bands, given the six poles.
    pub fn settings(&self, poles: &Poles) -> (s: BandSettings)
        ensures
            s == self.resolved(*poles),
    {
        BandSettings {
            low: self.low.settings(poles.low.attack, poles.low.release),
            mid: self.mid.settings(poles.mid.attack, poles.mid.release),
            high: self.high.settings(poles.high.attack, poles.high.release),
        }
    }
}

impl BandCompressors {
    /// Three compressors before any sample.
    pub open spec fn initial() -> BandCompressors {
        BandCompressors {
            low: SingleBandCompressor::initial(),
            mid: SingleBandCompressor::initial(),
            high: SingleBandCompressor::initial(),
        }
    }

    /// The compressors after a sample with the given band levels.
    pub open spec fn advanced(self, levels_db: Bands, settings: BandSettings) -> BandCompressors {
        BandCompressors {
            low: self.low.advanced(levels_db.low, settings.low),
            mid: self.mid.advanced(levels_db.mid, settings.mid),
            high: self.high.advanced(levels_db.high, settings.high),
        }
    }

    /// Per band, the gain in decibels divided by 20: the exponent whose
    /// power of ten is the band's linear gain.
    pub open spec fn gain_exponents(self, settings: BandSettings) -> Bands {
        Bands {
            low: self.low.gain_db(settings.low).quotient(value_of(TWENTY_BITS)),
            mid: self.mid.gain_db(settings.mid).quotient(value_of(TWENTY_BITS)),
            high: self.high.gain_db(settings.high).quotient(value_of(TWENTY_BITS)),
        }
    }

    pub fn new() -> (r: BandCompressors)
        ensures
            r == BandCompressors::initial(),
    {
        BandCompressors {
            low: SingleBandCompressor::new(),
            mid: SingleBandCompressor::new(),
            high: SingleBandCompressor::new(),
        }
    }

    /// Advances the three compressors by one sample, given the base-10
    /// logarithms of the band levels, and returns the gain exponents.
    pub fn process(&mut self, log10_levels: &BandLevels, settings: &BandSettings) -> (exponents:
        Bands)
        ensures
            *final(self) == old(self).advanced(log10_levels.in_decibels(), *settings),
            exponents == final(self).gain_exponents(*settings),
    {
        let low = self.low.process_sample(level_db(log10_levels.low), &settings.low);
        let mid = self.mid.process_sample(level_db(log10_levels.mid), &settings.mid);
        let high = self.high.process_sample(level_db(log10_levels.high), &settings.high);
        Bands { low: gain_exponent(low), mid: gain_exponent(mid), high: gain_exponent(high) }
    }
}

impl MultibandCompressor {
    /// The banks have one entry per channel each, and the applied split
    /// frequencies are numbers.
    pub open spec fn wf(&self) -> bool {
        &&& self.filters@.len() == self.compressors@.len()
        &&& !self.current_lo_mid.is_nan()
        &&& !self.current_mid_hi.is_nan()
    }

    /// The number of channels that the banks are laid out for.
    pub open spec fn channels(&self) -> nat {
        self.filters@.len()
    }

    /// An engine without channels, at 44100 Hz, with a meter of its own
    /// that starts at `silent_meter`.
    pub fn new() -> (r: MultibandCompressor)
        ensures
            r.wf(),
            r.channels() == 0,
            r.sample_rate.bits == DEFAULT_SAMPLE_RATE_BITS,
            r.peak_meter_decay_weight.bits == DEFAULT_DECAY_WEIGHT_BITS,
            r.current_lo_mid.bits == 0,
            r.current_mid_hi.bits == 0,
    {
        MultibandCompressor {
            peak_meter_decay_weight: Binary32::from_bits(DEFAULT_DECAY_WEIGHT_BITS),
            peak_meter: PeakMeter::new(silent_meter()),
            sample_rate: Binary32::from_bits(DEFAULT_SAMPLE_RATE_BITS),
            filters: Vec::new(),
            compressors: Vec::new(),
            current_lo_mid: Binary32::from_bits(ZERO_BITS),
            current_mid_hi: Binary32::from_bits(ZERO_BITS),
        }
    }

    /// Lays the banks out anew for `channel_count` channels, every filter a
    /// pass-through at rest and every compressor in its initial state, and
    /// forgets the applied split frequencies, so that the next
    /// `update_crossovers` designs the filters.
    pub fn initialize(&mut self, sample_rate: Binary32, channel_count: usize, decay_weight: Binary32)
        ensures
            final(self).wf(),
            final(self).channels() == channel_count,
            final(self).sample_rate == sample_rate,
            final(self).peak_meter_decay_weight == decay_weight,
            final(self).peak_meter == old(self).peak_meter,
            final(self).current_lo_mid.bits == 0,
            final(self).current_mid_hi.bits == 0,
            forall|i: int|
                0 <= i < channel_count ==> final(self).filters@[i] == CrossoverFilters::identity(),
            forall|i: int|
                0 <= i < channel_count ==> final(self).compressors@[i] == BandCompressors::initial(),
    {
        self.sample_rate = sample_rate;
        self.peak_meter_decay_weight = decay_weight;
        self.current_lo_mid = Binary32::from_bits(ZERO_BITS);
        self.current_mid_hi = Binary32::from_bits(ZERO_BITS);
        self.filters.clear();
        self.compressors.clear();
        let mut n: usize = 0;
        while n < channel_count
            invariant
                n <= channel_count,
                self.filters@.len() == n,
                self.compressors@.len() == n,
                self.sample_rate == sample_rate,
                self.peak_meter_decay_weight == decay_weight,
                self.peak_meter == old(self).peak_meter,
                self.current_lo_mid.bits == 0,
                self.current_mid_hi.bits == 0,
                forall|i: int| 0 <= i < n ==> self.filters@[i] == CrossoverFilters::identity(),
                forall|i: int| 0 <= i < n ==> self.compressors@[i] == BandCompressors::initial(),
            decreases channel_count - n,
        {
            self.filters.push(CrossoverFilters::new());
            self.compressors.push(BandCompressors::new());
            n = n + 1;
        }
    }

    /// Takes the requested split frequencies. A request that differs from
    /// the applied frequency by more than 0.5 Hz becomes the applied one. If
    /// either does, the result is the pair of frequencies to design the
    /// filters for: the applied ones, limited to their ranges. Otherwise
    /// nothing changes and the result is `None`.
    pub fn update_crossovers(&mut self, lo_mid: Binary32, mid_hi: Binary32) -> (plan: Option<
        (Binary32, Binary32),
    >)
        requires
            old(self).wf(),
            tunable(old(self).sample_rate),
        ensures
            final(self).wf(),
            final(self).current_lo_mid == applied_after(old(self).current_lo_mid, lo_mid),
            final(self).current_mid_hi == applied_after(old(self).current_mid_hi, mid_hi),
            final(self).sample_rate == old(self).sample_rate,
            final(self).filters == old(self).filters,
            final(self).compressors == old(self).compressors,
            final(self).peak_meter_decay_weight == old(self).peak_meter_decay_weight,
            final(self).peak_meter == old(self).peak_meter,
            plan is Some <==> differs_by_more(
                lo_mid,
                old(self).current_lo_mid,
                value_of(HYSTERESIS_BITS),
            ) || differs_by_more(mid_hi, old(self).current_mid_hi, value_of(HYSTERESIS_BITS)),
            plan is None ==> *final(self) == *old(self),
            plan matches Some(f) ==> {
                &&& f.0 == low_split(final(self).current_lo_mid, final(self).sample_rate)
                &&& f.1 == high_split(
                    final(self).current_lo_mid,
                    final(self).current_mid_hi,
                    final(self).sample_rate,
                )
                &&& !f.0.less(value_of(TEN_BITS))
                &&& !low_cap(final(self).sample_rate).less(f.0)
                &&& !f.1.less(f.0.sum(value_of(TEN_BITS)))
                &&& !high_cap(final(self).sample_rate).less(f.1)
                &&& !f.0.is_nan()
                &&& !f.1.is_nan()
            },
    {
        let threshold = Binary32::from_bits(HYSTERESIS_BITS);
        let mut needs_update = false;
        if should_recompute(lo_mid, self.current_lo_mid, threshold) {
            self.current_lo_mid = lo_mid;
            needs_update = true;
        }
        if should_recompute(mid_hi, self.current_mid_hi, threshold) {
            self.current_mid_hi = mid_hi;
            needs_update = true;
        }
        if needs_update {
            let ten = Binary32::from_bits(TEN_BITS);
            let nyquist = self.sample_rate.mul(Binary32::from_bits(HALF_BITS));
            let low_limit = nyquist.mul(Binary32::from_bits(LOW_CAP_BITS));
            let high_limit = nyquist.mul(Binary32::from_bits(HIGH_CAP_BITS));
            let low_freq = self.current_lo_mid.clamp(ten, low_limit);
            proof {
                lemma_sum_monotone(low_freq, low_limit, ten);
            }
            let high_freq = self.current_mid_hi.clamp(low_freq.add(ten), high_limit);
            Some((low_freq, high_freq))
        } else {
            None
        }
    }

    /// Designs the filters of every channel for the given split points and
    /// clears their state.
    pub fn retune(&mut self, tuning: &Tuning)
        ensures
            final(self).filters@.len() == old(self).filters@.len(),
            forall|i: int|
                0 <= i < final(self).filters@.len() ==> final(self).filters@[i]
                    == CrossoverFilters::tuned(*tuning),
            final(self).compressors == old(self).compressors,
            final(self).sample_rate == old(self).sample_rate,
            final(self).current_lo_mid == old(self).current_lo_mid,
            final(self).current_mid_hi == old(self).current_mid_hi,
            final(self).peak_meter_decay_weight == old(self).peak_meter_decay_weight,
            final(self).peak_meter == old(self).peak_meter,
    {
        let n = self.filters.len();
        let mut i: usize = 0;
        while i < n
            invariant
                i <= n,
                self.filters@.len() == n,
                forall|j: int| 0 <= j < i ==> self.filters@[j] == CrossoverFilters::tuned(*tuning),
                self.compressors == old(self).compressors,
                self.sample_rate == old(self).sample_rate,
                self.current_lo_mid == old(self).current_lo_mid,
                self.current_mid_hi == old(self).current_mid_hi,
                self.peak_meter_decay_weight == old(self).peak_meter_decay_weight,
                self.peak_meter == old(self).peak_meter,
            decreases n - i,
        {
            let mut filters = self.filters[i];
            filters.retune(tuning);
            self.filters.set(i, filters);
            i = i + 1;
        }
    }

    /// First step of a sample: splits it into its bands through the
    /// channel's filters, and finds per band the level whose logarithm the
    /// detector wants.
    pub fn analyse(&mut self, channel: usize, input: Binary32) -> (frame: Frame)
        requires
            channel < old(self).filters@.len(),
        ensures
            frame.bands == old(self).filters@[channel as int].bands(input),
            frame.levels.low == rectified(frame.bands.low),
            frame.levels.mid == rectified(frame.bands.mid),
            frame.levels.high == rectified(frame.bands.high),
            final(self).filters@ == old(self).filters@.update(
                channel as int,
                old(self).filters@[channel as int].advanced(input),
            ),
            final(self).compressors == old(self).compressors,
            final(self).sample_rate == old(self).sample_rate,
            final(self).current_lo_mid == old(self).current_lo_mid,
            final(self).current_mid_hi == old(self).current_mid_hi,
            final(self).peak_meter_decay_weight == old(self).peak_meter_decay_weight,
            final(self).peak_meter == old(self).peak_meter,
    {
        let mut filters = self.filters[channel];
        let bands = filters.split(input);
        self.filters.set(channel, filters);
        Frame {
            bands,
            levels: BandLevels {
                low: rectified_level(bands.low),
                mid: rectified_level(bands.mid),
                high: rectified_level(bands.high),
            },
        }
    }

    /// Second step of a sample: advances the channel's band compressors,
    /// given the base-10 logarithms of the band levels, and returns per
    /// band the exponent whose power of ten is the linear gain.
    pub fn compress(
        &mut self,
        channel: usize,
        log10_levels: &BandLevels,
        settings: &BandSettings,
    ) -> (exponents: Bands)
        requires
            channel < old(self).compressors@.len(),
        ensures
            final(self).compressors@ == old(self).compressors@.update(
                channel as int,
                old(self).compressors@[channel as int].advanced(
                    log10_levels.in_decibels(),
                    *settings,
                ),
            ),
            exponents == final(self).compressors@[channel as int].gain_exponents(*settings),
            final(self).filters == old(self).filters,
            final(self).sample_rate == old(self).sample_rate,
            final(self).current_lo_mid == old(self).current_lo_mid,
            final(self).current_mid_hi == old(self).current_mid_hi,
            final(self).peak_meter_decay_weight == old(self).peak_meter_decay_weight,
            final(self).peak_meter == old(self).peak_meter,
    {
        let mut bands = self.compressors[channel];
        let exponents = bands.process(log10_levels, settings);
        self.compressors.set(channel, bands);
        exponents
    }

    /// Ends a block whose largest output magnitude was `block_peak`: where
    /// a display is attached, the meter takes its next value.
    pub fn finish_block(&self, block_peak: Binary32, display_attached: bool) {
        if display_attached {
            self.peak_meter.update(block_peak, self.peak_meter_decay_weight);
        }
    }

    /// The meter's value, as most recently stored.
    pub fn read_peak_meter(&self) -> Binary32 {
        self.peak_meter.read()
    }
}

impl Default for MultibandCompressor {
    fn default() -> (r: MultibandCompressor)
        ensures
            r.wf(),
            r.channels() == 0,
            r.sample_rate.bits == DEFAULT_SAMPLE_RATE_BITS,
            r.peak_meter_decay_weight.bits == DEFAULT_DECAY_WEIGHT_BITS,
            r.current_lo_mid.bits == 0,
            r.current_mid_hi.bits == 0,
    {
        MultibandCompressor::new()
    }
}

/// After a request that was applied, a request within 0.5 Hz of it leaves
/// the applied frequency as it is.
pub proof fn lemma_hysteresis(current: Binary32, first: Binary32, second: Binary32)
    requires
        differs_by_more(first, current, value_of(HYSTERESIS_BITS)),
        !differs_by_more(second, first, value_of(HYSTERESIS_BITS)),
    ensures
        applied_after(applied_after(current, first), second) == applied_after(current, first),
        applied_after(current, first) == first,
{
}

} // verus!
