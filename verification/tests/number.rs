use raymarch::number::{beyond, inverse, ratio, signed};

#[test]
fn ratio_is_the_one_whole_number_over_the_other() {
    assert_eq!(ratio::<f64>(1, 4), 0.25);
    assert_eq!(ratio::<f64>(3, 2), 1.5);
    assert_eq!(ratio::<f64>(0, 7), 0.0);
    assert_eq!(ratio::<i64>(7, 2), 3);
}

#[test]
fn ratio_gives_the_nearest_number_to_a_decimal_fraction() {
    assert_eq!(ratio::<f64>(1, 10_000), 1E-4);
    assert_eq!(ratio::<f64>(1, 10_000_000), 1E-7);
    assert_eq!(ratio::<f64>(1, 5), 0.2);
    assert_eq!(ratio::<f64>(1, 3), 1.0 / 3.0);
}

#[test]
fn ratio_over_zero_is_what_the_numbers_make_of_it() {
    assert_eq!(ratio::<f64>(1, 0), f64::INFINITY);
    assert!(ratio::<f64>(0, 0).is_nan());
}

#[test]
fn signed_takes_a_whole_number_of_either_sign() {
    assert_eq!(signed::<f64>(0), 0.0);
    assert!(signed::<f64>(0).is_sign_positive());
    assert_eq!(signed::<f64>(7), 7.0);
    assert_eq!(signed::<f64>(-1), -1.0);
    assert_eq!(signed::<f64>(i32::MAX), 2147483647.0);
    assert_eq!(signed::<f64>(i32::MIN), -2147483648.0);
    assert_eq!(signed::<i64>(-12), -12);
}

#[test]
fn signed_agrees_with_the_conversion_of_the_language() {
    for n in [-1000, -3, -1, 0, 1, 2, 50, 65536, i32::MIN + 1] {
        assert_eq!(signed::<f64>(n), n as f64);
    }
}

#[test]
fn beyond_asks_for_the_magnitude() {
    assert!(beyond(4.5f64, 4.0));
    assert!(beyond(-4.5f64, 4.0));
    assert!(!beyond(3.5f64, 4.0));
    assert!(!beyond(-3.5f64, 4.0));
    assert!(!beyond(4.0f64, 4.0));
    assert!(!beyond(-4.0f64, 4.0));
    assert!(beyond(-5i64, 4));
    assert!(!beyond(3i64, 4));
}

#[test]
fn beyond_agrees_with_the_absolute_value() {
    let values = [
        0.0f64,
        -0.0,
        1.0,
        -1.0,
        2.9999,
        3.0,
        3.0001,
        -3.0001,
        1E300,
        -1E300,
        f64::INFINITY,
        f64::NEG_INFINITY,
        f64::NAN,
        f64::MIN_POSITIVE,
    ];
    for &x in &values {
        for &bound in &values {
            assert_eq!(beyond(x, bound), x.abs() > bound);
        }
    }
}

#[test]
fn nothing_lies_beyond_what_is_no_number() {
    assert!(!beyond(f64::NAN, 1.0));
    assert!(!beyond(1.0, f64::NAN));
}

#[test]
fn inverse_is_one_over_the_number() {
    assert_eq!(inverse(4.0f64), Some(0.25));
    assert_eq!(inverse(-0.5f64), Some(-2.0));
    assert_eq!(inverse(3.0f64), Some(1.0 / 3.0));
    assert_eq!(inverse(7i64), Some(0));
    assert_eq!(inverse(1i64), Some(1));
}

#[test]
fn zero_has_no_inverse() {
    assert_eq!(inverse(0.0f64), None);
    assert_eq!(inverse(-0.0f64), None);
    assert_eq!(inverse(0i64), None);
}

#[test]
fn the_smallest_number_has_an_inverse() {
    assert_eq!(inverse(f64::MIN_POSITIVE), Some(1.0 / f64::MIN_POSITIVE));
    assert_eq!(inverse(5E-324f64), Some(f64::INFINITY));
}

#[test]
fn inverse_lets_what_is_no_number_through() {
    assert!(inverse(f64::NAN).unwrap().is_nan());
}
