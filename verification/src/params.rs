//! The parameters of the processor as plain values: five per band and the
//! two split frequencies, with their ranges and their defaults.
use crate::binary32::Binary32;
use crate::biquad::value_of;
use crate::compression::BandParams;
use crate::engine::BlockParams;
use vstd::prelude::*;

verus! {

/// Pattern of -60.0: the least threshold, in dB.
pub const THRESHOLD_MIN_BITS: u32 = 0xc270_0000;

/// Pattern of 0.0: the largest threshold, in dB.
pub const THRESHOLD_MAX_BITS: u32 = 0;

/// Pattern of 1.0: the least ratio.
pub const RATIO_MIN_BITS: u32 = 0x3f80_0000;

/// Pattern of 20.0: the largest ratio.
pub const RATIO_MAX_BITS: u32 = 0x41a0_0000;

/// Pattern of 0.1: the shortest attack, in ms.
pub const ATTACK_MIN_BITS: u32 = 0x3dcc_cccd;

/// Pattern of 100.0: the longest attack, in ms.
pub const ATTACK_MAX_BITS: u32 = 0x42c8_0000;

/// Pattern of 10.0: the shortest release, in ms.
pub const RELEASE_MIN_BITS: u32 = 0x4120_0000;

/// Pattern of 1000.0: the longest release, in ms.
pub const RELEASE_MAX_BITS: u32 = 0x447a_0000;

/// Pattern of 0.0: the least makeup gain, in dB.
pub const MAKEUP_MIN_BITS: u32 = 0;

/// Pattern of 24.0: the largest makeup gain, in dB.
pub const MAKEUP_MAX_BITS: u32 = 0x41c0_0000;

/// Pattern of 40.0: the least low/mid split frequency, in Hz.
pub const XOVER_LO_MID_MIN_BITS: u32 = 0x4220_0000;

/// Pattern of 1000.0: the largest low/mid split frequency, in Hz.
pub const XOVER_LO_MID_MAX_BITS: u32 = 0x447a_0000;

/// Pattern of 500.0: the least mid/high split frequency, in Hz.
pub const XOVER_MID_HI_MIN_BITS: u32 = 0x43fa_0000;

/// Pattern of 8000.0: the largest mid/high split frequency, in Hz.
pub const XOVER_MID_HI_MAX_BITS: u32 = 0x45fa_0000;

/// The parameter values of one block.
#[derive(Clone, Copy, Debug)]
pub struct MultibandCompressorParams {
    pub threshold_low: Binary32,
    pub ratio_low: Binary32,
    pub attack_low: Binary32,
    pub release_low: Binary32,
    pub makeup_low: Binary32,
    pub threshold_mid: Binary32,
    pub ratio_mid: Binary32,
    pub attack_mid: Binary32,
    pub release_mid: Binary32,
    pub makeup_mid: Binary32,
    pub threshold_high: Binary32,
    pub ratio_high: Binary32,
    pub attack_high: Binary32,
    pub release_high: Binary32,
    pub makeup_high: Binary32,
    pub xover_lo_mid: Binary32,
    pub xover_mid_hi: Binary32,
}

/// Whether `x` is a number from `min` to `max`, both included.
pub open spec fn within(x: Binary32, min: u32, max: u32) -> bool {
    !x.is_nan() && !x.less(value_of(min)) && !value_of(max).less(x)
}

/// Whether the parameters of a band lie in their ranges.
pub open spec fn band_in_range(band: BandParams) -> bool {
    &&& within(band.threshold_db, THRESHOLD_MIN_BITS, THRESHOLD_MAX_BITS)
    &&& within(band.ratio, RATIO_MIN_BITS, RATIO_MAX_BITS)
    &&& within(band.attack_ms, ATTACK_MIN_BITS, ATTACK_MAX_BITS)
    &&& within(band.release_ms, RELEASE_MIN_BITS, RELEASE_MAX_BITS)
    &&& within(band.makeup_db, MAKEUP_MIN_BITS, MAKEUP_MAX_BITS)
}

fn is_within(x: Binary32, min: u32, max: u32) -> (r: bool)
    ensures
        r == within(x, min, max),
{
    !x.is_nan_value() && !x.lt(Binary32::from_bits(min)) && !Binary32::from_bits(max).lt(x)
}

fn is_band_in_range(band: &BandParams) -> (r: bool)
    ensures
        r == band_in_range(*band),
{
    is_within(band.threshold_db, THRESHOLD_MIN_BITS, THRESHOLD_MAX_BITS) && is_within(
        band.ratio,
        RATIO_MIN_BITS,
        RATIO_MAX_BITS,
    ) && is_within(band.attack_ms, ATTACK_MIN_BITS, ATTACK_MAX_BITS) && is_within(
        band.release_ms,
        RELEASE_MIN_BITS,
        RELEASE_MAX_BITS,
    ) && is_within(band.makeup_db, MAKEUP_MIN_BITS, MAKEUP_MAX_BITS)
}

impl MultibandCompressorParams {
    /// The default values: thresholds -12, -10 and -8 dB, ratios 2, 3 and
    /// 4, attacks 20, 10 and 5 ms, releases 150, 100 and 80 ms, no makeup
    /// gain, splits at 200 and 2000 Hz.
    pub open spec fn defaults() -> MultibandCompressorParams {
        MultibandCompressorParams {
            threshold_low: value_of(0xc140_0000),
            ratio_low: value_of(0x4000_0000),
            attack_low: value_of(0x41a0_0000),
            release_low: value_of(0x4316_0000),
            makeup_low: value_of(0),
            threshold_mid: value_of(0xc120_0000),
            ratio_mid: value_of(0x4040_0000),
            attack_mid: value_of(0x4120_0000),
            release_mid: value_of(0x42c8_0000),
            makeup_mid: value_of(0),
            threshold_high: value_of(0xc100_0000),
            ratio_high: value_of(0x4080_0000),
            attack_high: value_of(0x40a0_0000),
            release_high: value_of(0x42a0_0000),
            makeup_high: value_of(0),
            xover_lo_mid: value_of(0x4348_0000),
            xover_mid_hi: value_of(0x44fa_0000),
        }
    }

    /// The parameters of the low band.
    pub open spec fn low(self) -> BandParams {
        BandParams {
            threshold_db: self.threshold_low,
            ratio: self.ratio_low,
            attack_ms: self.attack_low,
            release_ms: self.release_low,
            makeup_db: self.makeup_low,
        }
    }

    /// The parameters of the mid band.
    pub open spec fn mid(self) -> BandParams {
        BandParams {
            threshold_db: self.threshold_mid,
            ratio: self.ratio_mid,
            attack_ms: self.attack_mid,
            release_ms: self.release_mid,
            makeup_db: self.makeup_mid,
        }
    }

    /// The parameters of the high band.
    pub open spec fn high(self) -> BandParams {
        BandParams {
            threshold_db: self.threshold_high,
            ratio: self.ratio_high,
            attack_ms: self.attack_high,
            release_ms: self.release_high,
            makeup_db: self.makeup_high,
        }
    }

    /// Whether every value lies in its range.
    pub open spec fn in_range(self) -> bool {
        &&& band_in_range(self.low())
        &&& band_in_range(self.mid())
        &&& band_in_range(self.high())
        &&& within(self.xover_lo_mid, XOVER_LO_MID_MIN_BITS, XOVER_LO_MID_MAX_BITS)
        &&& within(self.xover_mid_hi, XOVER_MID_HI_MIN_BITS, XOVER_MID_HI_MAX_BITS)
    }

    /// The parameters of the three bands.
    pub fn bands(&self) -> (b: BlockParams)
        ensures
            b.low == self.low(),
            b.mid == self.mid(),
            b.high == self.high(),
    {
        BlockParams {
            low: BandParams {
                threshold_db: self.threshold_low,
                ratio: self.ratio_low,
                attack_ms: self.attack_low,
                release_ms: self.release_low,
                makeup_db: self.makeup_low,
            },
            mid: BandParams {
                threshold_db: self.threshold_mid,
                ratio: self.ratio_mid,
                attack_ms: self.attack_mid,
                release_ms: self.release_mid,
                makeup_db: self.makeup_mid,
            },
            high: BandParams {
                threshold_db: self.threshold_high,
                ratio: self.ratio_high,
                attack_ms: self.attack_high,
                release_ms: self.release_high,
                makeup_db: self.makeup_high,
            },
        }
    }

    /// Whether every value lies in its range.
    pub fn is_in_range(&self) -> (r: bool)
        ensures
            r == self.in_range(),
    {
        let b = self.bands();
        is_band_in_range(&b.low) && is_band_in_range(&b.mid) && is_band_in_range(&b.high)
            && is_within(self.xover_lo_mid, XOVER_LO_MID_MIN_BITS, XOVER_LO_MID_MAX_BITS)
            && is_within(self.xover_mid_hi, XOVER_MID_HI_MIN_BITS, XOVER_MID_HI_MAX_BITS)
    }
}

impl Default for MultibandCompressorParams {
    fn default() -> (r: MultibandCompressorParams)
        ensures
            r == MultibandCompressorParams::defaults(),
            r.in_range(),
    {
        MultibandCompressorParams {
            threshold_low: Binary32::from_bits(0xc140_0000),
            ratio_low: Binary32::from_bits(0x4000_0000),
            attack_low: Binary32::from_bits(0x41a0_0000),
            release_low: Binary32::from_bits(0x4316_0000),
            makeup_low: Binary32::from_bits(0),
            threshold_mid: Binary32::from_bits(0xc120_0000),
            ratio_mid: Binary32::from_bits(0x4040_0000),
            attack_mid: Binary32::from_bits(0x4120_0000),
            release_mid: Binary32::from_bits(0x42c8_0000),
            makeup_mid: Binary32::from_bits(0),
            threshold_high: Binary32::from_bits(0xc100_0000),
            ratio_high: Binary32::from_bits(0x4080_0000),
            attack_high: Binary32::from_bits(0x40a0_0000),
            release_high: Binary32::from_bits(0x42a0_0000),
            makeup_high: Binary32::from_bits(0),
            xover_lo_mid: Binary32::from_bits(0x4348_0000),
            xover_mid_hi: Binary32::from_bits(0x44fa_0000),
        }
    }
}

} // verus!
