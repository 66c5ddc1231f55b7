use the_bus_telemetry::Reading;

fn reading(x: f32) -> Reading {
    Reading::from_bits(x.to_bits())
}

fn next(state: &mut u64) -> u64 {
    *state ^= *state << 13;
    *state ^= *state >> 7;
    *state ^= *state << 17;
    *state
}

#[test]
fn rounded_magnitude_of_plain_values() {
    assert_eq!(reading(0.0).rounded_magnitude(), 0);
    assert_eq!(reading(50.5).rounded_magnitude(), 51);
    assert_eq!(reading(60.0).rounded_magnitude(), 60);
    assert_eq!(reading(0.4).rounded_magnitude(), 0);
    assert_eq!(reading(0.5).rounded_magnitude(), 1);
    assert_eq!(reading(2.5).rounded_magnitude(), 3);
    assert_eq!(reading(49.49).rounded_magnitude(), 49);
}

#[test]
fn rounded_magnitude_drops_the_sign() {
    assert_eq!(reading(-3.4).rounded_magnitude(), 3);
    assert_eq!(reading(-12.5).rounded_magnitude(), 13);
    assert_eq!(reading(-0.0).rounded_magnitude(), 0);
}

#[test]
fn rounded_magnitude_at_the_limits() {
    assert_eq!(reading(f32::NAN).rounded_magnitude(), 0);
    assert_eq!(reading(f32::INFINITY).rounded_magnitude(), u32::MAX);
    assert_eq!(reading(f32::NEG_INFINITY).rounded_magnitude(), u32::MAX);
    assert_eq!(reading(f32::MAX).rounded_magnitude(), u32::MAX);
    assert_eq!(reading(4294967296.0).rounded_magnitude(), u32::MAX);
    assert_eq!(reading(4294967040.0).rounded_magnitude(), 4294967040);
    assert_eq!(reading(f32::MIN_POSITIVE).rounded_magnitude(), 0);
    assert_eq!(Reading::from_bits(1).rounded_magnitude(), 0);
}

#[test]
fn percent_cuts_and_does_not_round() {
    assert_eq!(reading(0.755).percent(), 75);
    assert_eq!(reading(0.804).percent(), 80);
    assert_eq!(reading(0.999).percent(), 99);
    assert_eq!(reading(1.0).percent(), 100);
    assert_eq!(reading(0.0).percent(), 0);
    assert_eq!(reading(0.5).percent(), 50);
}

#[test]
fn percent_follows_the_rounding_of_the_product() {
    // 0.29 is a little under 29/100 as a single, its hundredfold rounds to 29
    assert_eq!(reading(0.29).percent(), 29);
    assert_eq!(reading(0.57).percent(), 57);
    assert_eq!(reading(0.58).percent(), 58);
}

#[test]
fn percent_does_not_clamp() {
    assert_eq!(reading(1.5).percent(), 150);
    assert_eq!(reading(75.5).percent(), 7550);
}

#[test]
fn percent_at_the_limits() {
    assert_eq!(reading(-0.5).percent(), 0);
    assert_eq!(reading(-0.0).percent(), 0);
    assert_eq!(reading(f32::NAN).percent(), 0);
    assert_eq!(reading(-f32::NAN).percent(), 0);
    assert_eq!(reading(f32::INFINITY).percent(), u32::MAX);
    assert_eq!(reading(f32::NEG_INFINITY).percent(), 0);
    assert_eq!(reading(f32::MAX).percent(), u32::MAX);
    assert_eq!(reading(42949000.0).percent(), 4294899968);
    assert_eq!(reading(42950000.0).percent(), u32::MAX);
}

#[test]
fn is_positive_is_a_strict_threshold() {
    assert!(reading(1.0).is_positive());
    assert!(reading(0.5).is_positive());
    assert!(reading(0.001).is_positive());
    assert!(Reading::from_bits(1).is_positive());
    assert!(reading(f32::INFINITY).is_positive());
    assert!(!reading(0.0).is_positive());
    assert!(!reading(-0.0).is_positive());
    assert!(!reading(-1.0).is_positive());
    assert!(!reading(f32::NAN).is_positive());
    assert!(!reading(f32::NEG_INFINITY).is_positive());
}

#[test]
fn level_is_the_integer_part() {
    assert_eq!(reading(0.0).level(), 0);
    assert_eq!(reading(0.5).level(), 0);
    assert_eq!(reading(0.999).level(), 0);
    assert_eq!(reading(1.0).level(), 1);
    assert_eq!(reading(1.9).level(), 1);
    assert_eq!(reading(254.9).level(), 254);
    assert_eq!(reading(255.0).level(), 255);
    assert_eq!(reading(256.0).level(), 255);
    assert_eq!(reading(1e30).level(), 255);
    assert_eq!(reading(f32::INFINITY).level(), 255);
    assert_eq!(reading(-1.0).level(), 0);
    assert_eq!(reading(f32::NAN).level(), 0);
}

#[test]
fn the_two_lamp_rules_differ_below_one() {
    for x in [0.001f32, 0.25, 0.5, 0.999_999_9] {
        assert!(reading(x).is_positive());
        assert_eq!(reading(x).level(), 0);
    }
    for x in [0.0f32, -0.5, 1.0, 1.5, 200.0] {
        assert_eq!(reading(x).is_positive(), reading(x).level() != 0);
    }
}

#[test]
fn a_fraction_gives_at_most_100_percent() {
    let mut bits: u32 = 0;
    while bits <= 0x3F80_0000 {
        assert!(Reading::from_bits(bits).percent() <= 100);
        bits += 4099;
    }
    assert_eq!(Reading::from_bits(0x3F80_0000).percent(), 100);
    assert_eq!(Reading::from_bits(0x3F7F_FFFF).percent(), 99);
    assert_eq!(Reading::from_bits(0x3F80_0001).percent(), 100);
}

#[test]
fn zero_is_positive_zero() {
    assert_eq!(Reading::zero().to_bits(), 0);
    assert_eq!(f32::from_bits(Reading::zero().to_bits()), 0.0);
}

#[test]
fn rules_agree_with_single_precision_arithmetic() {
    let mut state: u64 = 0x9E37_79B9_7F4A_7C15;
    let mut checked: u32 = 0;
    while checked < 200_000 {
        let bits = next(&mut state) as u32;
        let x = f32::from_bits(bits);
        let r = Reading::from_bits(bits);
        assert_eq!(r.rounded_magnitude(), x.abs().round() as u32, "rounding {:#x}", bits);
        assert_eq!(r.percent(), (x * 100.0).trunc() as u32, "percent of {:#x}", bits);
        assert_eq!(r.is_positive(), x > 0.0, "sign of {:#x}", bits);
        assert_eq!(r.level(), x.trunc() as u8, "level of {:#x}", bits);
        checked += 1;
    }
}

#[test]
fn rules_agree_with_single_precision_arithmetic_in_range() {
    // readings of the size that a vehicle gives
    let mut state: u64 = 0x0123_4567_89AB_CDEF;
    let mut checked: u32 = 0;
    while checked < 200_000 {
        let raw = next(&mut state);
        let x = ((raw % 2_000_001) as f32 - 1_000_000.0) / 1000.0;
        let r = reading(x);
        assert_eq!(r.rounded_magnitude(), x.abs().round() as u32, "rounding {}", x);
        assert_eq!(r.percent(), (x * 100.0).trunc() as u32, "percent of {}", x);
        assert_eq!(r.level(), x.trunc() as u8, "level of {}", x);
        let y = (raw % 100_001) as f32 / 100_000.0;
        assert_eq!(reading(y).percent(), (y * 100.0).trunc() as u32, "percent of {}", y);
        checked += 1;
    }
}

#[test]
fn narrowing_of_plain_doubles() {
    assert_eq!(Reading::from_double_bits(1.0f64.to_bits()).to_bits(), 1.0f32.to_bits());
    assert_eq!(Reading::from_double_bits(0.5f64.to_bits()).to_bits(), 0.5f32.to_bits());
    assert_eq!(Reading::from_double_bits(0.755f64.to_bits()).to_bits(), 0.755f32.to_bits());
    assert_eq!(Reading::from_double_bits(50.5f64.to_bits()).to_bits(), 50.5f32.to_bits());
    assert_eq!(Reading::from_double_bits((-7.25f64).to_bits()).to_bits(), (-7.25f32).to_bits());
    assert_eq!(Reading::from_double_bits(0.0f64.to_bits()).to_bits(), 0);
    assert_eq!(Reading::from_double_bits((-0.0f64).to_bits()).to_bits(), 0x8000_0000);
}

#[test]
fn narrowing_at_the_limits() {
    assert_eq!(
        Reading::from_double_bits(f64::INFINITY.to_bits()).to_bits(),
        f32::INFINITY.to_bits()
    );
    assert_eq!(
        Reading::from_double_bits(f64::NEG_INFINITY.to_bits()).to_bits(),
        f32::NEG_INFINITY.to_bits()
    );
    assert_eq!(Reading::from_double_bits(1e300f64.to_bits()).to_bits(), f32::INFINITY.to_bits());
    assert_eq!(Reading::from_double_bits(1e-300f64.to_bits()).to_bits(), 0);
    assert_eq!(Reading::from_double_bits(f64::MAX.to_bits()).to_bits(), f32::INFINITY.to_bits());
    assert_eq!(
        Reading::from_double_bits((f32::MAX as f64).to_bits()).to_bits(),
        f32::MAX.to_bits()
    );
    assert_eq!(Reading::from_double_bits(1e-40f64.to_bits()).to_bits(), (1e-40f64 as f32).to_bits());
    assert!(f32::from_bits(Reading::from_double_bits(f64::NAN.to_bits()).to_bits()).is_nan());
}

#[test]
fn narrowing_agrees_with_the_cast() {
    let mut state: u64 = 0xDEAD_BEEF_CAFE_F00D;
    let mut checked: u32 = 0;
    while checked < 200_000 {
        let raw = next(&mut state);
        // any double, then one within the range of singles, then one at a tie
        let exponent = 1023 - 160 + (next(&mut state) % 290);
        let near = (raw & 0x800F_FFFF_FFFF_FFFF) | (exponent << 52);
        let tie = (near & !0x1FFF_FFFF) | 0x1000_0000;
        for bits in [raw, near, tie, tie - 1, tie + 1] {
            let expected = f64::from_bits(bits) as f32;
            let got = f32::from_bits(Reading::from_double_bits(bits).to_bits());
            if expected.is_nan() {
                assert!(got.is_nan(), "narrowing {:#x}", bits);
            } else {
                assert_eq!(got.to_bits(), expected.to_bits(), "narrowing {:#x}", bits);
            }
        }
        checked += 1;
    }
}
