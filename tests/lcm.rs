use lcm_exports::{
    checked_lcm_s32, checked_lcm_s64, checked_lcm_u32, checked_lcm_u64, lcm_s32, lcm_s64, lcm_u32,
    lcm_u64,
};

#[test]
fn scenario_small_values() {
    assert_eq!(lcm_u64(4, 6), 12);
    assert_eq!(lcm_s64(21, 6), 42);
    assert_eq!(lcm_u32(0, 5), 0);
}

#[test]
fn signed_result_is_non_negative() {
    assert_eq!(lcm_s32(-4, 6), 12);
    assert_eq!(lcm_s32(4, -6), 12);
    assert_eq!(lcm_s32(-4, -6), 12);
    assert_eq!(lcm_s64(-21, -6), 42);
    assert_eq!(checked_lcm_s32(-4, 6), Some(12));
}

#[test]
fn overflow_is_reported_not_widened() {
    assert_eq!(checked_lcm_u32(3_000_000_000, 3_000_000_001), None);
    assert_eq!(
        checked_lcm_u64(3_000_000_000, 3_000_000_001),
        Some(9_000_000_003_000_000_000)
    );
    assert_eq!(checked_lcm_u64(u64::MAX, u64::MAX - 1), None);
    assert_eq!(checked_lcm_s32(i32::MAX, i32::MAX - 1), None);
    assert_eq!(checked_lcm_s64(i64::MAX, i64::MAX - 1), None);
}

#[test]
fn zero_gives_zero_in_every_width() {
    assert_eq!(lcm_s32(7, 0), 0);
    assert_eq!(lcm_s32(0, -7), 0);
    assert_eq!(lcm_s32(0, 0), 0);
    assert_eq!(lcm_u32(9, 0), 0);
    assert_eq!(lcm_u32(0, 0), 0);
    assert_eq!(lcm_s64(0, 11), 0);
    assert_eq!(lcm_s64(0, 0), 0);
    assert_eq!(lcm_u64(0, 13), 0);
    assert_eq!(lcm_u64(0, 0), 0);
    assert_eq!(checked_lcm_u32(0, 0), Some(0));
    assert_eq!(checked_lcm_u64(5, 0), Some(0));
}

#[test]
fn zero_with_minimum_value_gives_zero() {
    assert_eq!(lcm_s32(0, i32::MIN), 0);
    assert_eq!(lcm_s32(i32::MIN, 0), 0);
    assert_eq!(lcm_s64(i64::MIN, 0), 0);
    assert_eq!(checked_lcm_s32(0, i32::MIN), Some(0));
    assert_eq!(checked_lcm_s64(i64::MIN, 0), Some(0));
}

#[test]
fn minimum_value_magnitude_does_not_fit() {
    assert_eq!(checked_lcm_s32(i32::MIN, 1), None);
    assert_eq!(checked_lcm_s32(i32::MIN, i32::MIN), None);
    assert_eq!(checked_lcm_s64(i64::MIN, -1), None);
    assert_eq!(checked_lcm_s64(i32::MIN as i64, 1), Some(2_147_483_648));
}

#[test]
fn order_of_arguments_does_not_matter() {
    assert_eq!(lcm_u32(12, 18), 36);
    assert_eq!(lcm_u32(18, 12), 36);
    assert_eq!(lcm_s64(-10, 15), lcm_s64(15, -10));
    assert_eq!(checked_lcm_u64(1 << 40, 6), checked_lcm_u64(6, 1 << 40));
}

#[test]
fn lcm_of_a_number_with_itself_is_its_magnitude() {
    assert_eq!(lcm_s32(-7, -7), 7);
    assert_eq!(lcm_s32(i32::MAX, i32::MAX), i32::MAX);
    assert_eq!(lcm_u32(u32::MAX, u32::MAX), u32::MAX);
    assert_eq!(lcm_s64(-123_456_789_012, -123_456_789_012), 123_456_789_012);
    assert_eq!(lcm_u64(u64::MAX, u64::MAX), u64::MAX);
}

#[test]
fn lcm_times_gcd_is_the_product() {
    let (a, b) = (12u64, 18u64);
    assert_eq!(lcm_u64(a, b) * num_integer::gcd(a, b), a * b);
    let (c, d) = (1_000u32, 1_024u32);
    assert_eq!(lcm_u32(c, d), 128_000);
    assert_eq!(lcm_u32(c, d) as u64 * num_integer::gcd(c, d) as u64, c as u64 * d as u64);
}

#[test]
fn wider_type_agrees_with_narrower() {
    assert_eq!(lcm_s64(-12, 18), lcm_s32(-12, 18) as i64);
    assert_eq!(lcm_s64(46_340, 46_341), lcm_s32(46_340, 46_341) as i64);
    assert_eq!(lcm_u64(65_535, 65_537), lcm_u32(65_535, 65_537) as u64);
}

#[test]
fn largest_results_that_fit() {
    assert_eq!(lcm_u64(u64::MAX, 1), u64::MAX);
    assert_eq!(lcm_s64(i64::MAX, -1), i64::MAX);
    assert_eq!(lcm_s64(-(1i64 << 40), 3), 3i64 << 40);
    assert_eq!(checked_lcm_u32(65_535, 65_537), Some(u32::MAX));
    assert_eq!(checked_lcm_s64(-(1i64 << 62), 2), Some(1i64 << 62));
}
