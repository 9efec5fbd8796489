use core::convert::TryFrom;
use paper::num::NonNegI32;

#[test]
fn min_value_is_zero() {
    assert_eq!(i32::from(NonNegI32::min_value()), 0);
}

#[test]
fn max_value_is_i32_max() {
    assert_eq!(i32::from(NonNegI32::max_value()), 2147483647);
}

#[test]
fn saturating_from_small_u64() {
    assert_eq!(i32::from(NonNegI32::saturating_from_u64(1)), 1);
}

#[test]
fn saturating_from_large_u64() {
    assert_eq!(
        i32::from(NonNegI32::saturating_from_u64(u64::max_value())),
        i32::max_value()
    );
}

#[test]
fn checked_div_by_zero_is_none() {
    let seven = NonNegI32::try_from(7i32).unwrap();
    assert_eq!(seven.checked_div(NonNegI32::min_value()), None);
    let two = NonNegI32::try_from(2i32).unwrap();
    assert_eq!(seven.checked_div(two).map(i32::from), Some(3));
}

#[test]
fn add_one_then_sub_one_returns() {
    let five = NonNegI32::try_from(5u64).unwrap();
    assert_eq!(i32::from(five.add_one()), 6);
    assert_eq!(i32::from(five.add_one().sub_one()), 5);
}

#[test]
fn negative_is_refused() {
    assert!(NonNegI32::try_from(-1i32).is_err());
    assert!(NonNegI32::try_from(u64::max_value()).is_err());
    assert_eq!(usize::try_from(NonNegI32::max_value()).unwrap(), 2147483647usize);
    assert_eq!(u64::from(NonNegI32::try_from(9usize).unwrap()), 9u64);
}

#[test]
fn displays_its_value() {
    assert_eq!(NonNegI32::max_value().text(), "2147483647".to_string());
    assert_eq!(NonNegI32::min_value().text(), "0".to_string());
}
