use plato_trust_beacon::signal::{
    clamp_to_unit, is_below_zero, less_than, less_than64, magnitude_bits, DECAY_FLOOR_BITS,
    MINUS_ONE_BITS, ONE_BITS,
};
use plato_trust_beacon::event::{
    CORRUPTION_STRENGTH, FAILURE_STRENGTH, RESURRECT_STRENGTH, SUCCESS_STRENGTH, TIMEOUT_STRENGTH,
};
use plato_trust_beacon::beacon::DEFAULT_DECAY_FACTOR;
use plato_trust_beacon::level::{NEUTRAL_FROM, SUSPICIOUS_FROM, TRUSTED_FROM, VERIFIED_FROM};
use plato_trust_beacon::adapter::EVIDENCE_SUCCESS_ABOVE;

fn samples32() -> Vec<f32> {
    vec![
        0.0,
        -0.0,
        1.0,
        -1.0,
        2.0,
        -2.0,
        0.5,
        -0.5,
        0.05,
        0.049,
        -0.049,
        0.051,
        0.999,
        -0.999,
        1.001,
        -1.001,
        f32::MIN_POSITIVE,
        -f32::MIN_POSITIVE,
        f32::from_bits(1),
        f32::from_bits(0x8000_0001),
        f32::MAX,
        f32::MIN,
        f32::INFINITY,
        f32::NEG_INFINITY,
        f32::NAN,
        -f32::NAN,
        f32::from_bits(0x7FC0_1234),
    ]
}

#[test]
fn constants_encode_their_values() {
    assert_eq!(f32::from_bits(ONE_BITS), 1.0);
    assert_eq!(f32::from_bits(MINUS_ONE_BITS), -1.0);
    assert_eq!(f32::from_bits(DECAY_FLOOR_BITS), 0.05);
    assert_eq!(f32::from_bits(SUCCESS_STRENGTH), 0.8);
    assert_eq!(f32::from_bits(FAILURE_STRENGTH), -0.9);
    assert_eq!(f32::from_bits(TIMEOUT_STRENGTH), -0.5);
    assert_eq!(f32::from_bits(CORRUPTION_STRENGTH), -0.95);
    assert_eq!(f32::from_bits(RESURRECT_STRENGTH), 0.6);
    assert_eq!(f32::from_bits(DEFAULT_DECAY_FACTOR), 0.9);
    assert_eq!(f64::from_bits(SUSPICIOUS_FROM), 0.2);
    assert_eq!(f64::from_bits(NEUTRAL_FROM), 0.4);
    assert_eq!(f64::from_bits(TRUSTED_FROM), 0.6);
    assert_eq!(f64::from_bits(VERIFIED_FROM), 0.8);
    assert_eq!(f64::from_bits(EVIDENCE_SUCCESS_ABOVE), 0.5);
}

#[test]
fn clamp_matches_max_then_min() {
    for x in samples32() {
        let expected = x.max(-1.0).min(1.0).to_bits();
        assert_eq!(clamp_to_unit(x.to_bits()), expected, "clamp of {:?}", x);
    }
}

#[test]
fn clamp_of_nan_is_minus_one() {
    assert_eq!(clamp_to_unit(f32::NAN.to_bits()), MINUS_ONE_BITS);
    assert_eq!(clamp_to_unit(f32::INFINITY.to_bits()), ONE_BITS);
    assert_eq!(clamp_to_unit(0.25f32.to_bits()), 0.25f32.to_bits());
}

#[test]
fn below_zero_matches_float_compare() {
    for x in samples32() {
        assert_eq!(is_below_zero(x.to_bits()), x < 0.0, "sign of {:?}", x);
    }
}

#[test]
fn less_than_matches_float_compare() {
    for a in samples32() {
        for b in samples32() {
            assert_eq!(less_than(a.to_bits(), b.to_bits()), a < b, "{:?} < {:?}", a, b);
        }
    }
}

#[test]
fn magnitude_matches_abs() {
    for x in samples32() {
        assert_eq!(magnitude_bits(x.to_bits()), x.abs().to_bits(), "abs of {:?}", x);
    }
}

#[test]
fn less_than64_matches_float_compare() {
    let samples: Vec<f64> = vec![
        0.0,
        -0.0,
        0.2,
        0.19999999999999998,
        0.4,
        -0.4,
        1.0,
        -1e300,
        f64::MIN_POSITIVE,
        f64::from_bits(1),
        f64::INFINITY,
        f64::NEG_INFINITY,
        f64::NAN,
        -f64::NAN,
    ];
    for &a in &samples {
        for &b in &samples {
            assert_eq!(less_than64(a.to_bits(), b.to_bits()), a < b, "{:?} < {:?}", a, b);
        }
    }
}
