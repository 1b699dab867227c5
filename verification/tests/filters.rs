use multiband_compressor::binary32::Binary32;
use multiband_compressor::biquad::Biquad;
use multiband_compressor::biquad::{
    MINUS_TWO_BITS, ONE_BITS, PI_BITS, SQRT_2_BITS, TWO_BITS, ZERO_BITS,
};
use multiband_compressor::crossover::{Cascade, CrossoverFilters, Tuning};
use multiband_compressor::stability::{COSINE_LIMIT_BITS, SINE_LIMIT_BITS};

fn b(x: f32) -> Binary32 {
    Binary32::from_bits(x.to_bits())
}

fn f(x: Binary32) -> f32 {
    f32::from_bits(x.to_bits())
}

// The section written with hardware arithmetic, to hold the library against.
#[derive(Clone, Copy)]
struct Reference {
    b0: f32,
    b1: f32,
    b2: f32,
    a1: f32,
    a2: f32,
    z1: f32,
    z2: f32,
}

impl Reference {
    fn new() -> Self {
        Reference { b0: 1.0, b1: 0.0, b2: 0.0, a1: 0.0, a2: 0.0, z1: 0.0, z2: 0.0 }
    }

    fn process_sample(&mut self, x: f32) -> f32 {
        let y = self.b0 * x + self.z1;
        self.z1 = self.b1 * x - self.a1 * y + self.z2;
        self.z2 = self.b2 * x - self.a2 * y;
        y
    }

    fn set_lowpass(&mut self, freq: f32, sr: f32) {
        let omega = 2.0 * std::f32::consts::PI * freq / sr;
        let cosw = omega.cos();
        let sinw = omega.sin();
        let q = 1.0 / 2f32.sqrt();
        let alpha = sinw / (2.0 * q);
        let b0 = (1.0 - cosw) / 2.0;
        let b1 = 1.0 - cosw;
        let b2 = (1.0 - cosw) / 2.0;
        let a0 = 1.0 + alpha;
        self.b0 = b0 / a0;
        self.b1 = b1 / a0;
        self.b2 = b2 / a0;
        self.a1 = -2.0 * cosw / a0;
        self.a2 = (1.0 - alpha) / a0;
        self.z1 = 0.0;
        self.z2 = 0.0;
    }

    fn set_highpass(&mut self, freq: f32, sr: f32) {
        let omega = 2.0 * std::f32::consts::PI * freq / sr;
        let cosw = omega.cos();
        let sinw = omega.sin();
        let q = 1.0 / 2f32.sqrt();
        let alpha = sinw / (2.0 * q);
        let b0 = (1.0 + cosw) / 2.0;
        let b1 = -(1.0 + cosw);
        let b2 = (1.0 + cosw) / 2.0;
        let a0 = 1.0 + alpha;
        self.b0 = b0 / a0;
        self.b1 = b1 / a0;
        self.b2 = b2 / a0;
        self.a1 = -2.0 * cosw / a0;
        self.a2 = (1.0 - alpha) / a0;
        self.z1 = 0.0;
        self.z2 = 0.0;
    }
}

fn same_section(got: &Biquad, want: &Reference) -> bool {
    got.b0.to_bits() == want.b0.to_bits()
        && got.b1.to_bits() == want.b1.to_bits()
        && got.b2.to_bits() == want.b2.to_bits()
        && got.a1.to_bits() == want.a1.to_bits()
        && got.a2.to_bits() == want.a2.to_bits()
        && got.z1.to_bits() == want.z1.to_bits()
        && got.z2.to_bits() == want.z2.to_bits()
}

fn lowpass(freq: f32, sr: f32) -> Biquad {
    let w = f(Biquad::angular_frequency(b(freq), b(sr)));
    let mut s = Biquad::new();
    s.set_lowpass(b(w.cos()), b(w.sin()));
    s
}

fn highpass(freq: f32, sr: f32) -> Biquad {
    let w = f(Biquad::angular_frequency(b(freq), b(sr)));
    let mut s = Biquad::new();
    s.set_highpass(b(w.cos()), b(w.sin()));
    s
}

struct Noise(u64);

impl Noise {
    // A sample in [-1, 1).
    fn next(&mut self) -> f32 {
        self.0 = self.0.wrapping_mul(6364136223846793005).wrapping_add(1442695040888963407);
        ((self.0 >> 40) as f32) / 8388608.0 - 1.0
    }
}

#[test]
fn constants_hold_the_patterns_of_their_values() {
    assert_eq!(ZERO_BITS, 0.0f32.to_bits());
    assert_eq!(ONE_BITS, 1.0f32.to_bits());
    assert_eq!(TWO_BITS, 2.0f32.to_bits());
    assert_eq!(MINUS_TWO_BITS, (-2.0f32).to_bits());
    assert_eq!(PI_BITS, std::f32::consts::PI.to_bits());
    assert_eq!(SQRT_2_BITS, 2f32.sqrt().to_bits());
    assert_eq!(SQRT_2_BITS, std::f32::consts::SQRT_2.to_bits());
}

#[test]
fn new_section_has_pass_through_coefficients() {
    let s = Biquad::new();
    assert!(same_section(&s, &Reference::new()));
    assert_eq!(f(s.b0), 1.0);
}

#[test]
fn pass_through_returns_every_sample_unchanged() {
    let mut s = Biquad::new();
    let mut noise = Noise(7);
    for _ in 0..2000 {
        let x = noise.next() * 1000.0;
        let y = s.process_sample(b(x));
        assert_eq!(f(y), x);
        if x != 0.0 {
            assert_eq!(y.to_bits(), x.to_bits());
        }
    }
    for x in [0.0f32, -0.0, 1.0e-45, -1.0e-45, f32::MAX, f32::MIN, f32::MIN_POSITIVE, 0.1] {
        let y = s.process_sample(b(x));
        assert_eq!(f(y), x);
        assert_eq!(f(s.z1), 0.0);
        assert_eq!(f(s.z2), 0.0);
    }
}

#[test]
fn pass_through_of_negative_zero_is_a_zero() {
    let mut s = Biquad::new();
    let y = s.process_sample(b(-0.0));
    assert_eq!(f(y), 0.0);
    assert_eq!(y.to_bits(), 0);
    let y = s.process_sample(b(2.5));
    assert_eq!(y.to_bits(), 2.5f32.to_bits());
}

#[test]
fn angular_frequency_is_two_pi_f_over_rate() {
    for (freq, sr) in [(1000.0f32, 44100.0f32), (10.0, 48000.0), (17640.0, 44100.0), (250.0, 96000.0)] {
        let want = 2.0 * std::f32::consts::PI * freq / sr;
        assert_eq!(Biquad::angular_frequency(b(freq), b(sr)).to_bits(), want.to_bits());
    }
    // an exact value: a quarter of the sample rate gives pi / 2
    assert_eq!(
        Biquad::angular_frequency(b(12000.0), b(48000.0)).to_bits(),
        std::f32::consts::FRAC_PI_2.to_bits()
    );
}

#[test]
fn lowpass_design_agrees_with_hardware_arithmetic() {
    for sr in [44100.0f32, 48000.0, 96000.0] {
        for freq in [10.0f32, 20.0, 120.0, 250.0, 1000.0, 3000.0, 8000.0, 17640.0, 0.99 * sr / 2.0] {
            let got = lowpass(freq, sr);
            let mut want = Reference::new();
            want.set_lowpass(freq, sr);
            assert!(same_section(&got, &want), "lowpass {} at {}", freq, sr);
        }
    }
}

#[test]
fn highpass_design_agrees_with_hardware_arithmetic() {
    for sr in [44100.0f32, 48000.0, 96000.0] {
        for freq in [10.0f32, 20.0, 120.0, 250.0, 1000.0, 3000.0, 8000.0, 17640.0, 0.99 * sr / 2.0] {
            let got = highpass(freq, sr);
            let mut want = Reference::new();
            want.set_highpass(freq, sr);
            assert!(same_section(&got, &want), "highpass {} at {}", freq, sr);
        }
    }
}

#[test]
fn lowpass_at_a_quarter_of_the_sample_rate_has_the_known_coefficients() {
    // cos = 0, sin = 1: alpha = 1 / sqrt(2), b0 = b2 = 0.5 / (1 + alpha), b1 = 1 / (1 + alpha)
    let mut s = Biquad::new();
    s.set_lowpass(b(0.0), b(1.0));
    let alpha = 1.0f32 / (2.0 * (1.0 / 2f32.sqrt()));
    let a0 = 1.0 + alpha;
    assert_eq!(f(s.b0), 0.5 / a0);
    assert_eq!(f(s.b1), 1.0 / a0);
    assert_eq!(f(s.b2), 0.5 / a0);
    assert_eq!(f(s.a1), 0.0);
    assert_eq!(f(s.a2), (1.0 - alpha) / a0);
    assert!((f(s.b0) - 0.29289323).abs() < 1e-6);
    assert!((f(s.a2) - 0.17157288).abs() < 1e-6);
}

#[test]
fn state_is_exactly_zero_after_a_design() {
    let mut s = lowpass(1000.0, 44100.0);
    let mut noise = Noise(11);
    for _ in 0..100 {
        s.process_sample(b(noise.next()));
    }
    assert_ne!(s.z1.to_bits(), 0);
    let w = 0.3f32;
    s.set_lowpass(b(w.cos()), b(w.sin()));
    assert_eq!(s.z1.to_bits(), 0);
    assert_eq!(s.z2.to_bits(), 0);
    for _ in 0..100 {
        s.process_sample(b(noise.next()));
    }
    s.set_highpass(b(w.cos()), b(w.sin()));
    assert_eq!(s.z1.to_bits(), 0);
    assert_eq!(s.z2.to_bits(), 0);
}

#[test]
fn filtering_agrees_with_hardware_arithmetic() {
    let mut noise = Noise(3);
    for freq in [10.0f32, 250.0, 3000.0, 17640.0] {
        let mut got = lowpass(freq, 44100.0);
        let mut want = Reference::new();
        want.set_lowpass(freq, 44100.0);
        for _ in 0..5000 {
            let x = noise.next();
            let y = got.process_sample(b(x));
            let r = want.process_sample(x);
            assert_eq!(y.to_bits(), r.to_bits());
        }
        assert!(same_section(&got, &want));
        let mut got = highpass(freq, 44100.0);
        let mut want = Reference::new();
        want.set_highpass(freq, 44100.0);
        for _ in 0..5000 {
            let x = noise.next();
            let y = got.process_sample(b(x));
            let r = want.process_sample(x);
            assert_eq!(y.to_bits(), r.to_bits());
        }
        assert!(same_section(&got, &want));
    }
}

#[test]
fn one_filter_step_has_the_value_of_the_recurrence() {
    let mut s = Biquad {
        b0: b(0.5),
        b1: b(0.25),
        b2: b(0.125),
        a1: b(-0.5),
        a2: b(0.25),
        z1: b(1.0),
        z2: b(2.0),
    };
    let y = s.process_sample(b(4.0));
    // y = 0.5 * 4 + 1 = 3; z1 = 0.25 * 4 + 0.5 * 3 + 2 = 4.5; z2 = 0.125 * 4 - 0.25 * 3 = -0.25
    assert_eq!(f(y), 3.0);
    assert_eq!(f(s.z1), 4.5);
    assert_eq!(f(s.z2), -0.25);
}

#[test]
fn output_stays_bounded_for_bounded_input() {
    let sr = 44100.0f32;
    let mut noise = Noise(5);
    let mut freq = 10.5f32;
    while freq < 0.99 * sr / 2.0 {
        let mut lp = lowpass(freq, sr);
        let mut hp = highpass(freq, sr);
        for n in 0..3000 {
            let x = if n < 1000 { noise.next() } else if n < 2000 { 1.0 } else { -1.0 };
            let y = f(lp.process_sample(b(x)));
            assert!(y.is_finite() && y.abs() < 4.0, "lowpass {} gave {}", freq, y);
            let y = f(hp.process_sample(b(x)));
            assert!(y.is_finite() && y.abs() < 4.0, "highpass {} gave {}", freq, y);
        }
        freq *= 1.7;
    }
}

#[test]
fn output_leaves_the_finite_range_for_the_largest_input() {
    // A lowpass overshoots on a step: a step of the largest finite value
    // cannot stay finite.
    let mut lp = lowpass(1000.0, 44100.0);
    let mut all_finite = true;
    for _ in 0..2000 {
        let y = f(lp.process_sample(b(f32::MAX)));
        all_finite = all_finite && y.is_finite();
    }
    assert!(!all_finite);
}

#[test]
fn cascade_is_two_sections_in_series() {
    let mut noise = Noise(9);
    let w = 0.4f32;
    let mut c = Cascade::new();
    c.set_lowpass(b(w.cos()), b(w.sin()));
    let mut first = Biquad::new();
    first.set_lowpass(b(w.cos()), b(w.sin()));
    let mut second = first;
    for _ in 0..1000 {
        let x = b(noise.next());
        let y = c.process_sample(x);
        let r = second.process_sample(first.process_sample(x));
        assert_eq!(y.to_bits(), r.to_bits());
    }
}

#[test]
fn crossover_splits_as_its_cascades_do() {
    let sr = 44100.0f32;
    let wl = f(Biquad::angular_frequency(b(200.0), b(sr)));
    let wh = f(Biquad::angular_frequency(b(3000.0), b(sr)));
    let tuning = Tuning {
        cos_low: b(wl.cos()),
        sin_low: b(wl.sin()),
        cos_high: b(wh.cos()),
        sin_high: b(wh.sin()),
    };
    let mut x = CrossoverFilters::new();
    x.retune(&tuning);
    let mut low = [Reference::new(); 2];
    let mut mid_hp = [Reference::new(); 2];
    let mut mid_lp = [Reference::new(); 2];
    let mut high = [Reference::new(); 2];
    for i in 0..2 {
        low[i].set_lowpass(200.0, sr);
        mid_hp[i].set_highpass(200.0, sr);
        mid_lp[i].set_lowpass(3000.0, sr);
        high[i].set_highpass(3000.0, sr);
    }
    let mut noise = Noise(13);
    let mut sum_error = 0.0f32;
    for _ in 0..4000 {
        let s = noise.next();
        let bands = x.split(b(s));
        let mut l = s;
        for q in low.iter_mut() {
            l = q.process_sample(l);
        }
        let mut h = s;
        for q in high.iter_mut() {
            h = q.process_sample(h);
        }
        let mut m = s;
        for q in mid_hp.iter_mut() {
            m = q.process_sample(m);
        }
        for q in mid_lp.iter_mut() {
            m = q.process_sample(m);
        }
        assert_eq!(bands.low.to_bits(), l.to_bits());
        assert_eq!(bands.mid.to_bits(), m.to_bits());
        assert_eq!(bands.high.to_bits(), h.to_bits());
        sum_error = sum_error.max((l + m + h).abs());
    }
    assert!(sum_error.is_finite());
}

#[test]
fn new_crossover_passes_the_sample_into_every_band() {
    let mut x = CrossoverFilters::new();
    let bands = x.split(b(0.75));
    assert_eq!(f(bands.low), 0.75);
    assert_eq!(f(bands.mid), 0.75);
    assert_eq!(f(bands.high), 0.75);
}

#[test]
fn designed_coefficients_are_at_most_two_in_magnitude() {
    let mut angle = 0.0f32;
    while angle <= std::f32::consts::PI {
        for high in [false, true] {
            let mut s = Biquad::new();
            if high {
                s.set_highpass(b(angle.cos()), b(angle.sin().max(0.0)));
            } else {
                s.set_lowpass(b(angle.cos()), b(angle.sin().max(0.0)));
            }
            for c in [s.b0, s.b1, s.b2, s.a1, s.a2] {
                assert!(f(c).abs() <= 2.0, "angle {} gives {}", angle, f(c));
            }
        }
        angle += 0.001;
    }
    // the corners of the range
    for (c, s) in [(1.0f32, 0.0f32), (-1.0, 0.0), (0.0, 1.0), (1.0, 1.0), (-1.0, 1.0)] {
        let mut lp = Biquad::new();
        lp.set_lowpass(b(c), b(s));
        let mut hp = Biquad::new();
        hp.set_highpass(b(c), b(s));
        for x in [lp.b0, lp.b1, lp.b2, lp.a1, lp.a2, hp.b0, hp.b1, hp.b2, hp.a1, hp.a2] {
            assert!(f(x).abs() <= 2.0);
        }
    }
}

#[test]
fn stability_limits_hold_the_patterns_of_their_values() {
    assert_eq!(COSINE_LIMIT_BITS, (1.0f32 - 2f32.powi(-21)).to_bits());
    assert_eq!(SINE_LIMIT_BITS, 2f32.powi(-23).to_bits());
}

#[test]
fn designed_sections_have_their_poles_inside_the_unit_circle() {
    for sr in [44100.0f32, 48000.0] {
        let mut freq = 10.0f32;
        let top = 0.99 * sr / 2.0;
        loop {
            let w = f(Biquad::angular_frequency(b(freq), b(sr)));
            let (c, s) = (w.cos(), w.sin());
            // the corner frequency lies within the limits of the law
            assert!(c.abs().to_bits() <= COSINE_LIMIT_BITS, "cosine at {} Hz", freq);
            assert!(SINE_LIMIT_BITS <= s.to_bits() && s.to_bits() <= ONE_BITS, "sine at {} Hz", freq);
            for high in [false, true] {
                let mut q = Biquad::new();
                if high {
                    q.set_highpass(b(c), b(s));
                } else {
                    q.set_lowpass(b(c), b(s));
                }
                let (a1, a2) = (f(q.a1) as f64, f(q.a2) as f64);
                assert!(a2.abs() < 1.0, "a2 at {} Hz", freq);
                assert!(a1.abs() < 1.0 + a2, "a1 at {} Hz", freq);
            }
            if freq >= top {
                break;
            }
            freq = (freq * 1.003).min(top);
        }
    }
}

#[test]
fn poles_stay_inside_the_unit_circle_at_the_limits() {
    let cos_limit = f32::from_bits(COSINE_LIMIT_BITS);
    let sin_limit = f32::from_bits(SINE_LIMIT_BITS);
    for c in [cos_limit, -cos_limit, 0.0, 0.5, -0.5] {
        for s in [sin_limit, 1.0, 0.5, 1.0e-3] {
            let mut q = Biquad::new();
            q.set_lowpass(b(c), b(s));
            let (a1, a2) = (f(q.a1) as f64, f(q.a2) as f64);
            assert!(a2.abs() < 1.0 && a1.abs() < 1.0 + a2, "cos {} sin {}", c, s);
        }
    }
}
