use raytracer::fixed::{RAW_MAX, SCALE};
use raytracer::scalar::Scalar;

fn s(raw: i64) -> Scalar {
    Scalar::from_raw(raw)
}

#[test]
fn half_times_half_is_a_quarter() {
    assert_eq!((s(500_000_000) * s(500_000_000)).get_raw(), 250_000_000);
}

#[test]
fn constants_have_the_expected_raw_counts() {
    assert_eq!(SCALE, 1_000_000_000);
    assert_eq!(RAW_MAX, i64::MAX);
    assert_eq!(Scalar::zero().get_raw(), 0);
    assert_eq!(Scalar::one().get_raw(), 1_000_000_000);
    assert_eq!(Scalar::max_value().get_raw(), i64::MAX);
    assert_eq!(Scalar::default(), Scalar::zero());
}

#[test]
fn from_int_scales_and_saturates() {
    assert_eq!(Scalar::from_int(3).get_raw(), 3_000_000_000);
    assert_eq!(Scalar::from_int(-7).get_raw(), -7_000_000_000);
    assert_eq!(Scalar::from_int(i64::MAX).get_raw(), i64::MAX);
    assert_eq!(Scalar::from_int(i64::MIN).get_raw(), -i64::MAX);
}

#[test]
fn from_raw_keeps_the_interval_symmetric() {
    assert_eq!(s(i64::MIN).get_raw(), -i64::MAX);
    assert_eq!(s(i64::MIN + 1).get_raw(), -i64::MAX);
    assert_eq!(s(42).get_raw(), 42);
}

#[test]
fn addition_and_subtraction_are_exact_inside_the_interval() {
    assert_eq!((s(1_500_000_000) + s(250_000_000)).get_raw(), 1_750_000_000);
    assert_eq!((s(1_500_000_000) - s(2_000_000_000)).get_raw(), -500_000_000);
}

#[test]
fn addition_and_subtraction_saturate() {
    assert_eq!(Scalar::max_value() + Scalar::one(), Scalar::max_value());
    assert_eq!((s(-i64::MAX) - Scalar::one()).get_raw(), -i64::MAX);
    assert_eq!((Scalar::max_value() - s(-i64::MAX)).get_raw(), i64::MAX);
}

#[test]
fn multiplication_rounds_toward_zero() {
    assert_eq!((s(3) * s(500_000_000)).get_raw(), 1);
    assert_eq!((s(-3) * s(500_000_000)).get_raw(), -1);
    assert_eq!((s(1) * s(500_000_000)).get_raw(), 0);
    assert_eq!((s(-1) * s(500_000_000)).get_raw(), 0);
    assert_eq!((Scalar::from_int(-2) * Scalar::from_int(3)).get_raw(), -6_000_000_000);
}

#[test]
fn multiplication_saturates() {
    assert_eq!(Scalar::max_value() * Scalar::from_int(2), Scalar::max_value());
    assert_eq!((Scalar::max_value() * Scalar::from_int(-2)).get_raw(), -i64::MAX);
}

#[test]
fn division_rounds_toward_zero() {
    assert_eq!((Scalar::one() / Scalar::from_int(3)).get_raw(), 333_333_333);
    assert_eq!((Scalar::from_int(-1) / Scalar::from_int(3)).get_raw(), -333_333_333);
    assert_eq!((Scalar::one() / Scalar::from_int(-3)).get_raw(), -333_333_333);
    assert_eq!((Scalar::from_int(-1) / Scalar::from_int(-3)).get_raw(), 333_333_333);
    assert_eq!((Scalar::from_int(16) / Scalar::from_int(9)).get_raw(), 1_777_777_777);
}

#[test]
fn division_saturates() {
    assert_eq!(Scalar::max_value() / s(1), Scalar::max_value());
    assert_eq!((Scalar::max_value() / s(-1)).get_raw(), -i64::MAX);
}

#[test]
fn negation_is_exact() {
    assert_eq!((-s(5)).get_raw(), -5);
    assert_eq!((-Scalar::max_value()).get_raw(), -i64::MAX);
    assert_eq!(-(-Scalar::max_value()), Scalar::max_value());
    assert_eq!(-Scalar::zero(), Scalar::zero());
}

#[test]
fn square_root_rounds_down() {
    assert_eq!(Scalar::from_int(2).sqrt(), Some(s(1_414_213_562)));
    assert_eq!(Scalar::from_int(25).sqrt(), Some(Scalar::from_int(5)));
    assert_eq!(s(250_000_000).sqrt(), Some(s(500_000_000)));
    assert_eq!(Scalar::zero().sqrt(), Some(Scalar::zero()));
    assert_eq!(s(1).sqrt(), Some(s(31_622)));
}

#[test]
fn square_root_of_the_largest_value() {
    let root = Scalar::max_value().sqrt().unwrap().get_raw() as i128;
    let n = (i64::MAX as i128) * 1_000_000_000;
    assert!(root * root <= n);
    assert!((root + 1) * (root + 1) > n);
}

#[test]
fn square_root_of_a_negative_value_is_refused() {
    assert_eq!(s(-1).sqrt(), None);
    assert_eq!(Scalar::from_int(-4).sqrt(), None);
}

#[test]
fn to_int_rounds_toward_zero() {
    assert_eq!(s(1_999_999_999).to_int(), 1);
    assert_eq!(s(-1_500_000_000).to_int(), -1);
    assert_eq!(s(-999_999_999).to_int(), 0);
    assert_eq!(Scalar::from_int(255).to_int(), 255);
}

#[test]
fn comparison_follows_the_raw_counts() {
    assert!(s(1) < s(2));
    assert!(s(-1) < Scalar::zero());
    assert!(s(2) > s(1));
    assert!(s(2) >= s(2));
    assert!(s(2) <= s(2));
    assert!(!(s(2) < s(2)));
    assert_eq!(s(7), s(7));
    assert_ne!(s(7), s(8));
}

#[test]
fn is_zero_only_for_zero() {
    assert!(Scalar::zero().is_zero());
    assert!(!s(1).is_zero());
    assert!(!s(-1).is_zero());
}
