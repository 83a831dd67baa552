use claudiofsr_lib::IntegerDigits;
use claudiofsr_lib::decimal_digit_count;
use claudiofsr_lib::digit_count;

#[test]
fn test_digit_count_method_syntax() {
    assert_eq!((-100i32).digit_count(), 4);
    assert_eq!(100i32.digit_count(), 3);
    assert_eq!(0i32.digit_count(), 1);
    assert_eq!(i32::MIN.digit_count(), 11);
    assert_eq!(5000u16.digit_count(), 4);
    assert_eq!(0u64.digit_count(), 1);

    let val = Some(12345);
    assert_eq!(val.digit_count(), 5);
    assert_eq!(None::<i32>.digit_count(), 0);
}

#[test]
fn test_digit_count_various_types() {
    let values: Vec<i64> = vec![-10, 0, 10, 1000, 12345];
    let results: Vec<usize> = values.into_iter().map(|n| n.digit_count()).collect();
    assert_eq!(results, vec![3, 1, 2, 4, 5]);
}

#[test]
fn test_helper_function() {
    assert_eq!(digit_count(123), 3);
    assert_eq!(digit_count(-123), 4);
    assert_eq!(digit_count(Some(12345)), 5);
    assert_eq!(digit_count(None::<i32>), 0);
}

/// The fixed-point digit count, with the values written as mantissa and
/// scale pairs.
#[test]
fn test_decimal_digit_count() {
    // Integers as decimals
    assert_eq!(decimal_digit_count(123, 0), 3);
    assert_eq!(decimal_digit_count(-123, 0), 4);
    assert_eq!(decimal_digit_count(0, 0), 1);

    // Decimals with fractional parts
    assert_eq!(decimal_digit_count(1234, 2), 5);
    assert_eq!(decimal_digit_count(-1234, 2), 6);
    assert_eq!(decimal_digit_count(5, 1), 3);
    assert_eq!(decimal_digit_count(-5, 1), 4);

    // Decimals with leading zeros in the fraction
    assert_eq!(decimal_digit_count(1, 3), 5);
    assert_eq!(decimal_digit_count(-1, 3), 6);

    // Decimals with trailing zeros (the scale is preserved)
    assert_eq!(decimal_digit_count(100, 2), 4); // "1.00"
    assert_eq!(decimal_digit_count(0, 3), 5); // "0.000"
}

#[test]
fn test_digit_count_extremes() {
    assert_eq!(u8::MAX.digit_count(), 3);
    assert_eq!(u16::MAX.digit_count(), 5);
    assert_eq!(u32::MAX.digit_count(), 10);
    assert_eq!(u64::MAX.digit_count(), 20);
    assert_eq!(u128::MAX.digit_count(), 39);
    assert_eq!(i64::MIN.digit_count(), 20);
    assert_eq!(i128::MIN.digit_count(), 40);
    assert_eq!(9usize.digit_count(), 1);
    assert_eq!((-9isize).digit_count(), 2);
}
