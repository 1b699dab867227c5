use multiband_compressor::binary32::Binary32;
use multiband_compressor::rounding::{round_dyadic, round_ratio_wide};

fn b(x: f32) -> Binary32 {
    Binary32::from_bits(x.to_bits())
}

fn agrees(got: Binary32, want: f32) -> bool {
    if want.is_nan() {
        f32::from_bits(got.to_bits()).is_nan()
    } else {
        got.to_bits() == want.to_bits()
    }
}

fn edge_patterns() -> Vec<u32> {
    let magnitudes: [u32; 34] = [
        0x0000_0000, 0x0000_0001, 0x0000_0002, 0x0000_0003, 0x0040_0000, 0x007f_ffff,
        0x0080_0000, 0x0080_0001, 0x00ff_ffff, 0x0100_0000, 0x0100_0001, 0x3300_0000,
        0x3380_0000, 0x3400_0000, 0x3f00_0000, 0x3f7f_ffff, 0x3f80_0000, 0x3f80_0001,
        0x3fc0_0000, 0x4000_0000, 0x4040_0000, 0x4120_0000, 0x4b00_0000, 0x4b7f_ffff,
        0x4b80_0000, 0x4b80_0001, 0x5f00_0000, 0x7f00_0000, 0x7f7f_fffe, 0x7f7f_ffff,
        0x7f80_0000, 0x7f80_0001, 0x7fc0_0000, 0x7fff_ffff,
    ];
    let mut all = Vec::new();
    for m in magnitudes.iter() {
        all.push(*m);
        all.push(*m | 0x8000_0000);
    }
    all
}

struct Lcg(u64);

impl Lcg {
    fn next(&mut self) -> u32 {
        self.0 = self.0.wrapping_mul(6364136223846793005).wrapping_add(1442695040888963407);
        (self.0 >> 32) as u32
    }

    // A pattern near `base`: same sign and an exponent at most `spread` away.
    fn near(&mut self, base: u32, spread: u32) -> u32 {
        let r = self.next();
        let exp = (base >> 23) & 0xff;
        let shift = r % (2 * spread + 1);
        let new_exp = (exp + shift).saturating_sub(spread).min(254);
        (self.next() & 0x807f_ffff) | (new_exp << 23)
    }
}

#[test]
fn product_agrees_with_hardware_on_edge_values() {
    let all = edge_patterns();
    for x in all.iter() {
        for y in all.iter() {
            let want = f32::from_bits(*x) * f32::from_bits(*y);
            let got = Binary32::from_bits(*x).mul(Binary32::from_bits(*y));
            assert!(agrees(got, want), "{:08x} * {:08x}: {:08x}, hardware {:08x}", x, y, got.to_bits(), want.to_bits());
        }
    }
}

#[test]
fn quotient_agrees_with_hardware_on_edge_values() {
    let all = edge_patterns();
    for x in all.iter() {
        for y in all.iter() {
            let want = f32::from_bits(*x) / f32::from_bits(*y);
            let got = Binary32::from_bits(*x).div(Binary32::from_bits(*y));
            assert!(agrees(got, want), "{:08x} / {:08x}: {:08x}, hardware {:08x}", x, y, got.to_bits(), want.to_bits());
        }
    }
}

#[test]
fn sum_agrees_with_hardware_on_edge_values() {
    let all = edge_patterns();
    for x in all.iter() {
        for y in all.iter() {
            let want = f32::from_bits(*x) + f32::from_bits(*y);
            let got = Binary32::from_bits(*x).add(Binary32::from_bits(*y));
            assert!(agrees(got, want), "{:08x} + {:08x}: {:08x}, hardware {:08x}", x, y, got.to_bits(), want.to_bits());
        }
    }
}

#[test]
fn difference_agrees_with_hardware_on_edge_values() {
    let all = edge_patterns();
    for x in all.iter() {
        for y in all.iter() {
            let want = f32::from_bits(*x) - f32::from_bits(*y);
            let got = Binary32::from_bits(*x).sub(Binary32::from_bits(*y));
            assert!(agrees(got, want), "{:08x} - {:08x}: {:08x}, hardware {:08x}", x, y, got.to_bits(), want.to_bits());
        }
    }
}

#[test]
fn product_agrees_with_hardware_on_random_patterns() {
    let mut g = Lcg(1);
    for _ in 0..3_000_000 {
        let x = g.next();
        let y = g.next();
        let want = f32::from_bits(x) * f32::from_bits(y);
        let got = Binary32::from_bits(x).mul(Binary32::from_bits(y));
        assert!(agrees(got, want), "{:08x} * {:08x}", x, y);
    }
}

#[test]
fn product_agrees_with_hardware_near_the_subnormal_range() {
    let mut g = Lcg(2);
    for _ in 0..3_000_000 {
        let x = g.next();
        // choose y so that the product's exponent lies near the bottom
        let ex = (x >> 23) & 0xff;
        let ey = (127 + 10u32).saturating_sub(ex).min(254) + g.next() % 40;
        let y = (g.next() & 0x807f_ffff) | (ey.min(254) << 23);
        let want = f32::from_bits(x) * f32::from_bits(y);
        let got = Binary32::from_bits(x).mul(Binary32::from_bits(y));
        assert!(agrees(got, want), "{:08x} * {:08x}", x, y);
    }
}

#[test]
fn quotient_agrees_with_hardware_on_random_patterns() {
    let mut g = Lcg(3);
    for _ in 0..3_000_000 {
        let x = g.next();
        let y = g.next();
        let want = f32::from_bits(x) / f32::from_bits(y);
        let got = Binary32::from_bits(x).div(Binary32::from_bits(y));
        assert!(agrees(got, want), "{:08x} / {:08x}", x, y);
    }
}

#[test]
fn quotient_agrees_with_hardware_near_the_subnormal_range() {
    let mut g = Lcg(4);
    for _ in 0..3_000_000 {
        let x = g.next();
        let ex = (x >> 23) & 0xff;
        let ey = (ex + 100 + g.next() % 50).min(254);
        let y = (g.next() & 0x807f_ffff) | (ey << 23);
        let want = f32::from_bits(x) / f32::from_bits(y);
        let got = Binary32::from_bits(x).div(Binary32::from_bits(y));
        assert!(agrees(got, want), "{:08x} / {:08x}", x, y);
    }
}

#[test]
fn sum_agrees_with_hardware_on_random_patterns() {
    let mut g = Lcg(5);
    for _ in 0..3_000_000 {
        let x = g.next();
        let y = g.next();
        let want = f32::from_bits(x) + f32::from_bits(y);
        let got = Binary32::from_bits(x).add(Binary32::from_bits(y));
        assert!(agrees(got, want), "{:08x} + {:08x}", x, y);
    }
}

#[test]
fn sum_agrees_with_hardware_on_nearby_exponents() {
    let mut g = Lcg(6);
    for _ in 0..3_000_000 {
        let x = g.next();
        let y = g.near(x, 40);
        let y = if g.next() % 2 == 0 { y ^ 0x8000_0000 } else { y };
        let want = f32::from_bits(x) + f32::from_bits(y);
        let got = Binary32::from_bits(x).add(Binary32::from_bits(y));
        assert!(agrees(got, want), "{:08x} + {:08x}", x, y);
        let want = f32::from_bits(x) - f32::from_bits(y);
        let got = Binary32::from_bits(x).sub(Binary32::from_bits(y));
        assert!(agrees(got, want), "{:08x} - {:08x}", x, y);
    }
}

#[test]
fn sum_of_opposites_is_positive_zero() {
    let x = b(1.5);
    let y = b(-1.5);
    assert_eq!(x.add(y).to_bits(), 0);
    assert_eq!(b(-0.0).add(b(-0.0)).to_bits(), 0x8000_0000);
    assert_eq!(b(-0.0).add(b(0.0)).to_bits(), 0);
}

#[test]
fn comparisons_agree_with_hardware() {
    let all = edge_patterns();
    for x in all.iter() {
        for y in all.iter() {
            let fx = f32::from_bits(*x);
            let fy = f32::from_bits(*y);
            let bx = Binary32::from_bits(*x);
            let by = Binary32::from_bits(*y);
            assert_eq!(bx.lt(by), fx < fy, "{:08x} < {:08x}", x, y);
            assert_eq!(bx.gt(by), fx > fy, "{:08x} > {:08x}", x, y);
            assert_eq!(bx.eq_value(by), fx == fy, "{:08x} == {:08x}", x, y);
            let m = bx.max(by);
            let fm = fx.max(fy);
            assert!(agrees(m, fm) || (fm == 0.0 && f32::from_bits(m.to_bits()) == 0.0), "max {:08x} {:08x}", x, y);
        }
        assert_eq!(Binary32::from_bits(*x).abs().to_bits(), f32::from_bits(*x).abs().to_bits());
        assert_eq!(Binary32::from_bits(*x).neg().to_bits(), (-f32::from_bits(*x)).to_bits());
        assert_eq!(Binary32::from_bits(*x).is_nan_value(), f32::from_bits(*x).is_nan());
        assert_eq!(Binary32::from_bits(*x).is_finite_value(), f32::from_bits(*x).is_finite());
    }
}

#[test]
fn clamp_agrees_with_hardware() {
    let lo = b(10.0);
    let hi = b(17640.0);
    for x in [5.0f32, 10.0, 250.0, 17640.0, 30000.0, -1.0, f32::INFINITY, f32::NEG_INFINITY] {
        assert_eq!(b(x).clamp(lo, hi).to_bits(), x.clamp(10.0, 17640.0).to_bits());
    }
    assert!(f32::from_bits(b(f32::NAN).clamp(lo, hi).to_bits()).is_nan());
}

#[test]
fn rounding_of_ratios_has_known_values() {
    // integers up to 2^24 are their own patterns
    assert_eq!(round_ratio_wide(0, 1), 0);
    assert_eq!(round_ratio_wide(1, 1), 1);
    assert_eq!(round_ratio_wide(0xff_ffff, 1), 0xff_ffff);
    // halves round to even
    assert_eq!(round_ratio_wide(1, 2), 0);
    assert_eq!(round_ratio_wide(3, 2), 2);
    assert_eq!(round_ratio_wide(5, 2), 2);
    assert_eq!(round_ratio_wide(7, 2), 4);
    assert_eq!(round_ratio_wide(5, 4), 1);
    assert_eq!(round_ratio_wide(7, 4), 2);
    // 25 digits: the last one is dropped
    assert_eq!(round_ratio_wide(0x100_0000, 1), 0x100_0000);
    assert_eq!(round_ratio_wide(0x100_0001, 1), 0x100_0000);
    assert_eq!(round_ratio_wide(0x100_0002, 1), 0x100_0001);
    assert_eq!(round_ratio_wide(0x100_0003, 1), 0x100_0002);
    assert_eq!(round_ratio_wide(0x1ff_ffff, 1), 0x180_0000);
    // 1.0 is 2^149 units
    assert_eq!(round_dyadic(1, 149), 1.0f32.to_bits());
    assert_eq!(round_dyadic(3, 148), 1.5f32.to_bits());
    assert_eq!(round_dyadic(1, -1), 0);
    assert_eq!(round_dyadic(3, -1), 2);
    assert_eq!(round_dyadic(1, 0), 1);
    assert_eq!(round_dyadic(0, 17), 0);
    assert_eq!(round_dyadic(0xff_ffff, 253), f32::MAX.to_bits());
    assert_eq!(round_dyadic(0x1ff_fffe, 252), f32::MAX.to_bits());
    assert_eq!(round_dyadic(0x1ff_ffff, 252), f32::INFINITY.to_bits());
    assert_eq!(round_dyadic(1, 277), f32::INFINITY.to_bits());
    assert_eq!(round_dyadic(1, 4000), f32::INFINITY.to_bits());
    assert_eq!(round_dyadic(0x3fff_ffff_ffff_ffff, -4000), 0);
    assert_eq!(round_dyadic(0x3fff_ffff_ffff_ffff, -62), 1);
}

#[test]
fn every_pair_of_exponents_agrees_with_hardware() {
    let fractions: [u32; 6] = [0, 1, 0x2a_aaab, 0x40_0000, 0x7f_fffe, 0x7f_ffff];
    for ex in 0..=254u32 {
        for ey in 0..=254u32 {
            for fx in fractions.iter() {
                for fy in fractions.iter() {
                    let x = (ex << 23) | fx;
                    let y = (ey << 23) | fy | 0x8000_0000;
                    let (a, b) = (f32::from_bits(x), f32::from_bits(y));
                    let (p, q) = (Binary32::from_bits(x), Binary32::from_bits(y));
                    assert!(agrees(p.mul(q), a * b), "{:08x} * {:08x}", x, y);
                    assert!(agrees(p.div(q), a / b), "{:08x} / {:08x}", x, y);
                    assert!(agrees(p.add(q), a + b), "{:08x} + {:08x}", x, y);
                    assert!(agrees(p.sub(q), a - b), "{:08x} - {:08x}", x, y);
                }
            }
        }
    }
}

#[test]
fn halfway_cases_round_to_even() {
    // 2^24 + 1 is halfway between two values: it rounds to the even one
    assert_eq!(b(16777216.0).add(b(1.0)).to_bits(), 16777216.0f32.to_bits());
    assert_eq!(b(16777218.0).add(b(1.0)).to_bits(), 16777220.0f32.to_bits());
    assert_eq!(b(16777216.0).add(b(3.0)).to_bits(), 16777220.0f32.to_bits());
    // the smallest subnormal halved is a tie with zero
    assert_eq!(b(1.0e-45).mul(b(0.5)).to_bits(), 0);
    assert_eq!(b(4.0e-45).mul(b(0.5)).to_bits(), 2);
    assert_eq!(Binary32::from_bits(3).mul(b(0.5)).to_bits(), 2);
    assert_eq!(Binary32::from_bits(3).div(b(2.0)).to_bits(), 2);
    assert_eq!(Binary32::from_bits(5).div(b(2.0)).to_bits(), 2);
    // overflow
    assert_eq!(b(f32::MAX).add(b(f32::MAX)).to_bits(), f32::INFINITY.to_bits());
    assert_eq!(b(f32::MAX).mul(b(2.0)).to_bits(), f32::INFINITY.to_bits());
    assert_eq!(b(f32::MAX).div(b(0.5)).to_bits(), f32::INFINITY.to_bits());
    assert_eq!(b(f32::MAX).add(b(1.0e30)).to_bits(), f32::MAX.to_bits());
    // exact values
    assert_eq!(b(1.5).mul(b(2.5)).to_bits(), 3.75f32.to_bits());
    assert_eq!(b(1.0).div(b(4.0)).to_bits(), 0.25f32.to_bits());
    assert_eq!(b(1.0).div(b(3.0)).to_bits(), 0x3eaa_aaab);
    assert_eq!(b(0.1).add(b(0.2)).to_bits(), 0x3e99_999a);
    assert_eq!(b(1.0).sub(b(0.9)).to_bits(), 0x3dcc_ccd0);
}

#[test]
fn operations_without_a_result_give_the_quiet_nan() {
    let nan = 0x7fc0_0000u32;
    assert_eq!(b(0.0).mul(b(f32::INFINITY)).to_bits(), nan);
    assert_eq!(b(0.0).div(b(0.0)).to_bits(), nan);
    assert_eq!(b(f32::INFINITY).div(b(f32::NEG_INFINITY)).to_bits(), nan);
    assert_eq!(b(f32::INFINITY).sub(b(f32::INFINITY)).to_bits(), nan);
    assert_eq!(b(f32::INFINITY).add(b(f32::NEG_INFINITY)).to_bits(), nan);
    assert_eq!(Binary32::from_bits(0xffc1_2345).add(b(1.0)).to_bits(), nan);
    assert_eq!(b(1.0).mul(Binary32::from_bits(0x7f80_0001)).to_bits(), nan);
    assert_eq!(b(1.0).div(b(0.0)).to_bits(), f32::INFINITY.to_bits());
    assert_eq!(b(-1.0).div(b(0.0)).to_bits(), f32::NEG_INFINITY.to_bits());
    assert_eq!(b(1.0).div(b(f32::NEG_INFINITY)).to_bits(), (-0.0f32).to_bits());
}
