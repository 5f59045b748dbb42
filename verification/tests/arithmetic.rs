use bike_controller::power::{compute_assist_power, compute_brake_ceiling, FULL_SCALE, UNIT};
use bike_controller::rounding::round_quotient;
use bike_controller::speed::{Speed, SPEED_LIMIT};

#[test]
fn rounding_keeps_what_fits() {
    assert_eq!(round_quotient(0, 7), 0);
    assert_eq!(round_quotient(84, 7), 12);
    assert_eq!(round_quotient(0xff_ffff, 1), 0xff_ffff);
    assert_eq!(round_quotient(0xff_ffff << 40, 1), 0xff_ffff << 40);
}

#[test]
fn rounding_goes_to_the_nearest() {
    assert_eq!(round_quotient(10, 4), 2);
    assert_eq!(round_quotient(14, 4), 4);
    assert_eq!(round_quotient(11, 4), 3);
    assert_eq!(round_quotient(9, 4), 2);
    assert_eq!(round_quotient((1 << 25) + 5, 1), (1 << 25) + 4);
    assert_eq!(round_quotient((1 << 25) + 7, 1), (1 << 25) + 8);
}

#[test]
fn rounding_breaks_ties_to_even() {
    assert_eq!(round_quotient((1 << 24) + 1, 1), 1 << 24);
    assert_eq!(round_quotient((1 << 24) + 3, 1), (1 << 24) + 4);
    assert_eq!(round_quotient((1 << 25) - 1, 1), 1 << 25);
}

#[test]
fn rounding_matches_single_precision() {
    for n in 0..=100u32 {
        let factor = n as f32 / 100.0;
        let counts = (factor as f64 * UNIT as f64) as u128;
        assert_eq!(round_quotient(n as u128 * UNIT, 100), counts);
    }
}

#[test]
fn rounding_keeps_order() {
    let mut last = 0;
    for n in 0..100_000u128 {
        let r = round_quotient(n * 1_000_003, 7);
        assert!(last <= r);
        last = r;
    }
}

#[test]
fn assist_power_matches_single_precision() {
    for limit in 0..=100u8 {
        for pas in 0..=100u8 {
            for brake in 0..=100u8 {
                let pas_factor = pas as f32 / 100.0;
                let brake_factor = (100.0 - brake as f32) / 100.0;
                let expected = (limit as f32 * pas_factor * brake_factor) as u8;
                assert_eq!(compute_assist_power(limit, pas, brake), expected);
            }
        }
    }
}

#[test]
fn brake_ceiling_matches_single_precision() {
    for limit in 0..=255u8 {
        for brake in 0..=100u8 {
            let brake_factor = (100.0 - brake as f32) / 100.0;
            let expected = (limit as f32 * brake_factor) as u8;
            assert_eq!(compute_brake_ceiling(limit, brake), expected);
        }
    }
}

#[test]
fn assist_power_exact_values() {
    assert_eq!(compute_assist_power(100, 50, 0), 50);
    assert_eq!(compute_assist_power(100, 100, 0), 100);
    assert_eq!(compute_assist_power(100, 80, 50), 40);
    assert_eq!(compute_assist_power(99, 33, 10), 29);
    assert_eq!(compute_assist_power(100, 0, 0), 0);
    assert_eq!(compute_assist_power(100, 100, 100), 0);
    assert_eq!(compute_brake_ceiling(100, 0), 100);
    assert_eq!(compute_brake_ceiling(100, 30), 70);
    assert_eq!(compute_brake_ceiling(77, 100), 0);
}

#[test]
fn assist_power_may_fall_one_short_of_a_whole_fraction() {
    assert_eq!(compute_assist_power(100, 53, 0), 52);
    assert_eq!(compute_assist_power(100, 59, 0), 58);
    assert_eq!(compute_assist_power(75, 84, 0), 62);
    assert_eq!(compute_brake_ceiling(100, 41), 58);
    let mut short = 0;
    for limit in 0..=100u32 {
        for pas in 0..=100u32 {
            for brake in 0..=100u32 {
                let exact = limit * pas * (100 - brake);
                let power = compute_assist_power(limit as u8, pas as u8, brake as u8) as u32;
                if power != exact / 10_000 {
                    assert_eq!(exact % 10_000, 0);
                    assert_eq!(power + 1, exact / 10_000);
                    short += 1;
                }
            }
        }
    }
    assert_eq!(short, 7);
}

#[test]
fn assist_power_is_monotone_and_bounded() {
    for limit in 0..=100u8 {
        for pas in 0..100u8 {
            let power = compute_assist_power(limit, pas, 20);
            assert!(power <= compute_assist_power(limit, pas + 1, 20));
            assert!(power <= compute_assist_power(limit, pas, 19));
            assert!(power <= compute_assist_power(limit + 1, pas, 20));
            assert!(power <= compute_brake_ceiling(limit, 20));
        }
        assert_eq!(
            compute_brake_ceiling(limit, 35),
            compute_assist_power(limit, FULL_SCALE, 35)
        );
        assert!(compute_brake_ceiling(limit, 35) <= limit);
    }
}

#[test]
fn speed_limit_is_25() {
    assert_eq!(SPEED_LIMIT, 25.0f32.to_bits());
    assert!(!Speed::from_bits(SPEED_LIMIT).is_below_limit());
    assert!(Speed::from_bits(SPEED_LIMIT - 1).is_below_limit());
    assert_eq!(Speed::from_bits(SPEED_LIMIT).to_bits(), SPEED_LIMIT);
}

#[test]
fn speed_special_patterns() {
    let nan = Speed::from_bits(f32::NAN.to_bits());
    assert!(nan.is_nan() && !nan.is_finite());
    assert!(!nan.is_negative() && !nan.is_below_limit());
    let infinite = Speed::from_bits(f32::INFINITY.to_bits());
    assert!(!infinite.is_nan() && !infinite.is_finite() && !infinite.is_negative());
    let minus_infinite = Speed::from_bits(f32::NEG_INFINITY.to_bits());
    assert!(!minus_infinite.is_finite() && minus_infinite.is_negative());
    let minus_zero = Speed::from_bits((-0.0f32).to_bits());
    assert!(minus_zero.is_finite() && !minus_zero.is_negative() && minus_zero.is_below_limit());
    assert!(Speed::from_bits((-f32::MIN_POSITIVE).to_bits()).is_negative());
}

#[test]
fn speed_agrees_with_single_precision() {
    let probes = [
        0.0f32,
        -0.0,
        1.0e-45,
        -1.0e-45,
        24.999998,
        25.0,
        25.000002,
        -25.0,
        f32::MAX,
        f32::MIN,
        f32::MIN_POSITIVE,
        f32::INFINITY,
        f32::NEG_INFINITY,
        f32::NAN,
    ];
    let mut bits = 0u32;
    for _ in 0..300_000u32 {
        bits = bits.wrapping_add(1_000_003);
        let value = f32::from_bits(bits);
        let speed = Speed::from_bits(bits);
        assert_eq!(speed.is_nan(), value.is_nan());
        assert_eq!(speed.is_finite(), value.is_finite());
        assert_eq!(speed.is_negative(), value < 0.0);
        assert_eq!(speed.is_below_limit(), value < 25.0);
        for probe in probes {
            let other = Speed::from_bits(probe.to_bits());
            assert_eq!(speed.is_below(other), value < probe);
            assert_eq!(other.is_below(speed), probe < value);
        }
    }
}
