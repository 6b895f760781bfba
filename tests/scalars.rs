use vmm::{Scalar, Sqrrt, UnitValue};

#[test]
fn quot_rounds_toward_zero() {
    assert_eq!((-7i32).quot(2), -3);
    assert_eq!(7i32.quot(-2), -3);
    assert_eq!((-7i64).quot(-2), 3);
    assert_eq!(i64::MIN.quot(1), i64::MIN);
    assert_eq!(i8::MIN.quot(2), -64);
    assert_eq!(200u8.quot(3), 66);
}

#[test]
fn arithmetic_is_exact() {
    assert_eq!(3i16.plus(4), 7);
    assert_eq!(3u32.minus(3), 0);
    assert_eq!((-6i64).times(7), -42);
    assert_eq!(i32::zero(), 0);
}

#[test]
fn sqrrt_rounds_down() {
    assert_eq!(8i32.sqrrt(), 2);
    assert_eq!(9u16.sqrrt(), 3);
    assert_eq!(0i8.sqrrt(), 0);
    assert_eq!(u64::MAX.sqrrt(), 4294967295);
    assert_eq!(i64::MAX.sqrrt(), 3037000499);
}

#[test]
fn unit_value_is_one() {
    assert_eq!(i8::unit_value(), 1);
    assert_eq!(u64::unit_value(), 1);
}

#[test]
fn checked_arithmetic_reports_overflow() {
    assert_eq!(100i8.checked_plus(27), Some(127));
    assert_eq!(100i8.checked_plus(28), None);
    assert_eq!(0u16.checked_minus(1), None);
    assert_eq!((-5i32).checked_minus(5), Some(-10));
    assert_eq!(16u8.checked_times(16), None);
    assert_eq!(15u8.checked_times(17), Some(255));
}

#[test]
fn wide_and_pointer_sized_scalars() {
    assert_eq!(i128::MIN.quot(-2), i128::MIN / -2);
    assert_eq!((-7i128).quot(2), -3);
    assert_eq!(i128::MIN.quot(1), i128::MIN);
    assert_eq!((-9isize).quot(4), -2);
    assert_eq!(17usize.quot(5), 3);
    assert_eq!(u128::MAX.sqrrt(), u64::MAX as u128);
    assert_eq!(i128::MAX.sqrrt(), 13043817825332782212);
    assert_eq!(99usize.sqrrt(), 9);
    assert_eq!(isize::unit_value(), 1);
    assert_eq!(u128::unit_value(), 1);
    assert_eq!(u128::MAX.checked_plus(1), None);
    assert_eq!(isize::MIN.checked_minus(1), None);
}
