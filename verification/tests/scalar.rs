use kellenth::{Scalar, UNIT};

fn raw(value: i64) -> Scalar {
    Scalar { raw: value }
}

#[test]
fn unit_is_ten_million_million_steps() {
    assert_eq!(UNIT, 10_000_000_000_000);
    assert_eq!(Scalar::one(), raw(10_000_000_000_000));
    assert_eq!(Scalar::zero(), raw(0));
    assert_eq!(Scalar::max_value(), raw(i64::MAX));
}

#[test]
fn from_int_widens_whole_numbers() {
    assert_eq!(Scalar::from_int(3), raw(30_000_000_000_000));
    assert_eq!(Scalar::from_int(-7), raw(-70_000_000_000_000));
    assert_eq!(Scalar::from_int(0), raw(0));
    assert_eq!(Scalar::from_int(922_337), raw(9_223_370_000_000_000_000));
    assert_eq!(Scalar::from_int(-922_337), raw(-9_223_370_000_000_000_000));
}

#[test]
fn sums_and_differences_are_exact() {
    assert_eq!(raw(100_000) + raw(200_000), raw(300_000));
    assert_eq!(raw(1_500_000) - raw(2_000_000), raw(-500_000));
    assert_eq!(raw(i64::MAX - 1) + raw(1), raw(i64::MAX));
    assert_eq!(raw(i64::MIN + 1) - raw(1), raw(i64::MIN));
    assert_eq!(-raw(9_800_000), raw(-9_800_000));
    assert_eq!(-raw(i64::MAX), raw(i64::MIN + 1));
}

#[test]
fn products_round_toward_zero() {
    assert_eq!(raw(15_000_000_000_000) * raw(20_000_000_000_000), raw(30_000_000_000_000));
    assert_eq!(raw(-98_000_000_000_000) * raw(9_000_000_000_000), raw(-88_200_000_000_000));
    // Half a step rounds to zero from either side.
    assert_eq!(raw(1) * raw(5_000_000_000_000), raw(0));
    assert_eq!(raw(-1) * raw(5_000_000_000_000), raw(0));
    // One step and a half rounds to one.
    assert_eq!(raw(3) * raw(5_000_000_000_000), raw(1));
    assert_eq!(raw(-3) * raw(5_000_000_000_000), raw(-1));
    assert_eq!(raw(-3) * raw(-5_000_000_000_000), raw(1));
    assert_eq!(raw(3_333_333_333_333) * raw(30_000_000_000_000), raw(9_999_999_999_999));
}

#[test]
fn products_use_the_wide_word() {
    // The product of the raw counts is far beyond a machine word.
    assert_eq!(raw(9_000_000_000_000_000_000) * raw(10_200_000_000_000), raw(9_180_000_000_000_000_000));
    assert_eq!(raw(i64::MAX) * raw(10_000_000_000_000), raw(i64::MAX));
    assert_eq!(raw(i64::MIN) * raw(10_000_000_000_000), raw(i64::MIN));
    assert_eq!(raw(i64::MIN) * raw(5_000_000_000_000), raw(-4_611_686_018_427_387_904));
    assert_eq!(raw(i64::MAX) * raw(-10_000_000_000_000), raw(i64::MIN + 1));
    assert_eq!(raw(3_037_000_499) * raw(3_037_000_499), raw(922_337));
}

#[test]
fn quotients_round_toward_zero() {
    assert_eq!(raw(10_000_000_000_000) / raw(30_000_000_000_000), raw(3_333_333_333_333));
    assert_eq!(raw(-10_000_000_000_000) / raw(30_000_000_000_000), raw(-3_333_333_333_333));
    assert_eq!(raw(10_000_000_000_000) / raw(-30_000_000_000_000), raw(-3_333_333_333_333));
    assert_eq!(raw(-10_000_000_000_000) / raw(-30_000_000_000_000), raw(3_333_333_333_333));
    assert_eq!(raw(20_000_000_000_000) / raw(30_000_000_000_000), raw(6_666_666_666_666));
    assert_eq!(raw(60_000_000_000_000) / raw(20_000_000_000_000), raw(30_000_000_000_000));
    assert_eq!(raw(0) / raw(-5), raw(0));
    assert_eq!(raw(1) / raw(20_000_000_000_000), raw(0));
    assert_eq!(raw(3) / raw(20_000_000_000_000), raw(1));
    assert_eq!(raw(-3) / raw(20_000_000_000_000), raw(-1));
}

#[test]
fn quotients_use_the_wide_word() {
    assert_eq!(raw(i64::MAX) / raw(10_000_000_000_000), raw(i64::MAX));
    assert_eq!(raw(i64::MIN) / raw(10_000_000_000_000), raw(i64::MIN));
    assert_eq!(raw(i64::MAX) / raw(i64::MAX), raw(10_000_000_000_000));
    assert_eq!(raw(i64::MIN) / raw(i64::MIN), raw(10_000_000_000_000));
    assert_eq!(raw(10_000_000_000_000) / raw(100_000_000), raw(1_000_000_000_000_000_000));
    assert_eq!(raw(10_000_000_000_000) / raw(-100_000_000), raw(-1_000_000_000_000_000_000));
    assert_eq!(raw(i64::MAX) / raw(20_000_000_000_000), raw(4_611_686_018_427_387_903));
}

#[test]
fn fit_checks_of_scalars() {
    assert!(raw(i64::MAX - 1).fits_add(raw(1)));
    assert!(!raw(i64::MAX).fits_add(raw(1)));
    assert!(raw(i64::MIN + 1).fits_sub(raw(1)));
    assert!(!raw(i64::MIN).fits_sub(raw(1)));
    assert!(raw(i64::MAX).fits_neg());
    assert!(!raw(i64::MIN).fits_neg());
    assert!(raw(i64::MAX).fits_mul(raw(10_000_000_000_000)));
    assert!(!raw(i64::MAX).fits_mul(raw(10_000_000_000_001)));
    assert!(raw(i64::MIN).fits_mul(raw(10_000_000_000_000)));
    assert!(!raw(i64::MIN).fits_mul(raw(-10_000_000_000_000)));
    assert!(raw(i64::MAX).fits_div(raw(10_000_000_000_000)));
    assert!(!raw(i64::MAX).fits_div(raw(9_999_999_999_999)));
    assert!(!raw(1).fits_div(raw(0)));
    assert!(!raw(0).fits_div(raw(0)));
    assert!(!raw(i64::MIN).fits_div(raw(-10_000_000_000_000)));
    assert!(!raw(10_000_000_000_000).fits_div(raw(1)));
    assert!(raw(10_000_000_000_000).fits_div(raw(100_000_000)));
    assert!(Scalar::fits_from_int(922_337));
    assert!(!Scalar::fits_from_int(922_338));
    assert!(Scalar::fits_from_int(-922_337));
    assert!(!Scalar::fits_from_int(-922_338));
}
