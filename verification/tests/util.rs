use pace_core::activity::Activity;
use pace_core::time::PaceDateTime;
use pace_core::text::{decimal, padded, signed_decimal};
use pace_core::util::overwrite_left_with_right;

#[test]
fn test_overwrite_i32_passes() {
    let mut left = 1;
    let right = 2;
    overwrite_left_with_right(&mut left, right);
    assert_eq!(left, 2);
}

#[test]
fn test_overwrite_string_passes() {
    let mut left = String::from("left");
    let right = String::from("right");
    overwrite_left_with_right(&mut left, right);
    assert_eq!(left, "right");
}

#[test]
fn test_overwrite_activity_passes() {
    let mut left = Activity::new(String::new(), PaceDateTime(0));
    let mut right = Activity::new(String::new(), PaceDateTime(0));
    let _ = right.category.replace("right".to_string());
    overwrite_left_with_right(&mut left, right);
    assert_eq!(left.category, Some("right".to_string()));
}

#[test]
fn numbers_in_decimal() {
    assert_eq!(decimal(0), "0");
    assert_eq!(decimal(1234), "1234");
    assert_eq!(decimal(u64::MAX), u64::MAX.to_string());
    assert_eq!(padded(7, 2), "07");
    assert_eq!(padded(123, 2), "123");
    assert_eq!(padded(0, 4), "0000");
    assert_eq!(signed_decimal(-42), "-42");
    assert_eq!(signed_decimal(i64::MIN), i64::MIN.to_string());
}
