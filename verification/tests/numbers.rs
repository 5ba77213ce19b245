use cadrum::copies::is_turn;
use cadrum::number::{Real, Vec3};
use cadrum::text::{decimal, flag_word, joined};

fn num(value: f64) -> Real {
    Real::from_bits(value.to_bits())
}

const SAMPLES: [f64; 17] = [0.0, -0.0, 5e-324, -5e-324, 1e-310, f64::MIN_POSITIVE, 0.1, 1.0, -1.0, 1.5, 2.0, 1e300, f64::MAX, f64::MIN, f64::INFINITY, f64::NEG_INFINITY, f64::NAN];

#[test]
fn predicates_agree_with_the_machine() {
    for x in SAMPLES {
        assert_eq!(num(x).is_finite(), x.is_finite(), "{x}");
        assert_eq!(num(x).is_nan(), x.is_nan(), "{x}");
        assert_eq!(num(x).is_positive(), x > 0.0, "{x}");
        assert_eq!(num(x).is_zero(), x == 0.0, "{x}");
        assert_eq!(num(x).abs().to_bits(), x.abs().to_bits(), "{x}");
        for y in SAMPLES {
            assert_eq!(num(x).is_below(num(y)), x < y, "{x} {y}");
            if x.is_finite() && y.is_finite() {
                assert_eq!(num(x).is_same(num(y)), x == y, "{x} {y}");
            }
        }
    }
}

#[test]
fn vectors_are_finite_and_zero_by_their_components() {
    let zero = Vec3::new(num(0.0), num(-0.0), num(0.0));
    assert!(zero.is_zero() && zero.is_finite());
    assert!(!Vec3::new(num(0.0), num(0.0), num(5e-324)).is_zero());
    assert!(!Vec3::new(num(0.0), num(f64::INFINITY), num(0.0)).is_finite());
    assert!(!Vec3::new(num(0.0), num(0.0), num(f64::NAN)).is_zero());
}

#[test]
fn a_turn_is_more_than_the_machine_epsilon() {
    for angle in SAMPLES.into_iter().chain([f64::EPSILON, -f64::EPSILON, f64::EPSILON * 1.001, -1e-15]) {
        assert_eq!(is_turn(num(angle)), angle.abs() > f64::EPSILON, "{angle}");
    }
}

#[test]
fn numbers_are_written_in_decimal() {
    for count in [0usize, 7, 10, 99, 100, 12_345, usize::MAX] {
        assert_eq!(decimal(count), count.to_string());
    }
    assert_eq!((flag_word(true), flag_word(false)), ("true", "false"));
    assert_eq!(joined("a", "b"), "ab");
}
