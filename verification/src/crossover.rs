//! The crossover network of one channel: four cascades of two filter
//! sections each, which split a sample into a low, a mid and a high band.
use crate::binary32::Binary32;
use crate::biquad::Biquad;
use vstd::prelude::*;

verus! {

/// Two filter sections in series: a fourth-order slope.
#[derive(Clone, Copy, Debug)]
pub struct Cascade {
    pub first: Biquad,
    pub second: Biquad,
}

/// The three band samples that one input sample splits into.
#[derive(Clone, Copy, Debug)]
pub struct Bands {
    pub low: Binary32,
    pub mid: Binary32,
    pub high: Binary32,
}

/// Cosine and sine of the angular frequencies of the two split points.
#[derive(Clone, Copy, Debug)]
pub struct Tuning {
    pub cos_low: Binary32,
    pub sin_low: Binary32,
    pub cos_high: Binary32,
    pub sin_high: Binary32,
}

/// The filters of one channel.
#[derive(Clone, Copy, Debug)]
pub struct CrossoverFilters {
    /// Lowpass at the low/mid split.
    pub low_lp: Cascade,
    /// Highpass at the low/mid split.
    pub mid_hp: Cascade,
    /// Lowpass at the mid/high split.
    pub mid_lp: Cascade,
    /// Highpass at the mid/high split.
    pub high_hp: Cascade,
}

impl Cascade {
    /// Two pass-through sections at rest.
    pub open spec fn identity() -> Cascade {
        Cascade { first: Biquad::identity(), second: Biquad::identity() }
    }

    /// Two equal lowpass sections at rest.
    pub open spec fn lowpass(cosw: Binary32, sinw: Binary32) -> Cascade {
        Cascade { first: Biquad::lowpass(cosw, sinw), second: Biquad::lowpass(cosw, sinw) }
    }

    /// Two equal highpass sections at rest.
    pub open spec fn highpass(cosw: Binary32, sinw: Binary32) -> Cascade {
        Cascade { first: Biquad::highpass(cosw, sinw), second: Biquad::highpass(cosw, sinw) }
    }

    /// The output for input `x`: the second section's output for the
    /// first section's output.
    pub open spec fn output(self, x: Binary32) -> Binary32 {
        self.second.output(self.first.output(x))
    }

    /// The cascade after input `x`.
    pub open spec fn advanced(self, x: Binary32) -> Cascade {
        Cascade {
            first: self.first.advanced(x),
            second: self.second.advanced(self.first.output(x)),
        }
    }

    pub fn new() -> (r: Cascade)
        ensures
            r == Cascade::identity(),
    {
        Cascade { first: Biquad::new(), second: Biquad::new() }
    }

    /// Filters one sample through both sections.
    pub fn process_sample(&mut self, x: Binary32) -> (y: Binary32)
        ensures
            y == old(self).output(x),
            *final(self) == old(self).advanced(x),
    {
        let inner = self.first.process_sample(x);
        self.second.process_sample(inner)
    }

    /// Makes both sections lowpass sections and clears their state.
    pub fn set_lowpass(&mut self, cosw: Binary32, sinw: Binary32)
        ensures
            *final(self) == Cascade::lowpass(cosw, sinw),
    {
        self.first.set_lowpass(cosw, sinw);
        self.second.set_lowpass(cosw, sinw);
    }

    /// Makes both sections highpass sections and clears their state.
    pub fn set_highpass(&mut self, cosw: Binary32, sinw: Binary32)
        ensures
            *final(self) == Cascade::highpass(cosw, sinw),
    {
        self.first.set_highpass(cosw, sinw);
        self.second.set_highpass(cosw, sinw);
    }
}

impl CrossoverFilters {
    /// Four pass-through cascades at rest.
    pub open spec fn identity() -> CrossoverFilters {
        CrossoverFilters {
            low_lp: Cascade::identity(),
            mid_hp: Cascade::identity(),
            mid_lp: Cascade::identity(),
            high_hp: Cascade::identity(),
        }
    }

    /// The network for the given split points, at rest.
    pub open spec fn tuned(tuning: Tuning) -> CrossoverFilters {
        CrossoverFilters {
            low_lp: Cascade::lowpass(tuning.cos_low, tuning.sin_low),
            mid_hp: Cascade::highpass(tuning.cos_low, tuning.sin_low),
            mid_lp: Cascade::lowpass(tuning.cos_high, tuning.sin_high),
            high_hp: Cascade::highpass(tuning.cos_high, tuning.sin_high),
        }
    }

    /// The bands of input `x`: the low band through the lowpass at the
    /// low split, the high band through the highpass at the high split, the
    /// mid band through the highpass at the low split and then the lowpass
    /// at the high split.
    pub open spec fn bands(self, x: Binary32) -> Bands {
        Bands {
            low: self.low_lp.output(x),
            mid: self.mid_lp.output(self.mid_hp.output(x)),
            high: self.high_hp.output(x),
        }
    }

    /// The network after input `x`.
    pub open spec fn advanced(self, x: Binary32) -> CrossoverFilters {
        CrossoverFilters {
            low_lp: self.low_lp.advanced(x),
            mid_hp: self.mid_hp.advanced(x),
            mid_lp: self.mid_lp.advanced(self.mid_hp.output(x)),
            high_hp: self.high_hp.advanced(x),
        }
    }

    pub fn new() -> (r: CrossoverFilters)
        ensures
            r == CrossoverFilters::identity(),
    {
        CrossoverFilters {
            low_lp: Cascade::new(),
            mid_hp: Cascade::new(),
            mid_lp: Cascade::new(),
            high_hp: Cascade::new(),
        }
    }

    /// Splits one sample into its three bands.
    pub fn split(&mut self, x: Binary32) -> (b: Bands)
        ensures
            b == old(self).bands(x),
            *final(self) == old(self).advanced(x),
    {
        let low = self.low_lp.process_sample(x);
        let high = self.high_hp.process_sample(x);
        let mid = self.mid_hp.process_sample(x);
        let mid = self.mid_lp.process_sample(mid);
        Bands { low, mid, high }
    }

    /// Designs all eight sections anew and clears their state.
    pub fn retune(&mut self, tuning: &Tuning)
        ensures
            *final(self) == CrossoverFilters::tuned(*tuning),
    {
        self.low_lp.set_lowpass(tuning.cos_low, tuning.sin_low);
        self.mid_hp.set_highpass(tuning.cos_low, tuning.sin_low);
        self.mid_lp.set_lowpass(tuning.cos_high, tuning.sin_high);
        self.high_hp.set_highpass(tuning.cos_high, tuning.sin_high);
    }
}

} // verus!
