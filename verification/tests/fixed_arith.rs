use locomotion::fixed::{Fixed, ONE_RAW};

fn raw(v: i64) -> Fixed {
    Fixed::from_raw(v)
}

#[test]
fn product_of_halves_is_a_quarter() {
    let half = Fixed::from_ratio(1, 2);
    assert_eq!(half.mul(half), Fixed::from_ratio(1, 4));
}

#[test]
fn one_is_two_to_the_thirty_second() {
    assert_eq!(Fixed::one().raw, 4_294_967_296);
    assert_eq!(ONE_RAW, 4_294_967_296);
    assert_eq!(Fixed::zero().raw, 0);
    assert_eq!(Fixed::from_int(6).raw, 6 * 4_294_967_296);
    assert_eq!(Fixed::from_int(-30).raw, -30 * 4_294_967_296);
    assert_eq!(Fixed::from_int(i32::MIN).raw, i64::MIN);
}

#[test]
fn sums_and_differences_saturate() {
    assert_eq!(raw(5).add(raw(7)), raw(12));
    assert_eq!(raw(5).sub(raw(7)), raw(-2));
    assert_eq!(raw(i64::MAX).add(raw(1)), raw(i64::MAX));
    assert_eq!(raw(i64::MIN).add(raw(-1)), raw(i64::MIN));
    assert_eq!(raw(i64::MIN).sub(raw(1)), raw(i64::MIN));
    assert_eq!(raw(i64::MAX).sub(raw(-1)), raw(i64::MAX));
    assert_eq!(raw(i64::MAX).add(raw(i64::MIN)), raw(-1));
}

#[test]
fn negation_saturates_at_the_lowest_value() {
    assert_eq!(raw(3).neg(), raw(-3));
    assert_eq!(raw(-3).neg(), raw(3));
    assert_eq!(raw(i64::MIN).neg(), raw(i64::MAX));
    assert_eq!(raw(i64::MAX).neg(), raw(i64::MIN + 1));
}

#[test]
fn products_round_toward_zero() {
    // 3 raw units times one half is 1.5 raw units.
    let half = Fixed::from_ratio(1, 2);
    assert_eq!(raw(3).mul(half), raw(1));
    assert_eq!(raw(-3).mul(half), raw(-1));
    assert_eq!(raw(3).mul(half.neg()), raw(-1));
    assert_eq!(raw(-3).mul(half.neg()), raw(1));
    assert_eq!(raw(1).mul(raw(1)), raw(0));
}

#[test]
fn products_are_exact_on_whole_numbers() {
    assert_eq!(Fixed::from_int(6).mul(Fixed::from_int(7)), Fixed::from_int(42));
    assert_eq!(Fixed::from_int(-6).mul(Fixed::from_int(7)), Fixed::from_int(-42));
    assert_eq!(Fixed::from_int(123).mul(Fixed::one()), Fixed::from_int(123));
    assert_eq!(Fixed::from_int(123).mul(Fixed::zero()), Fixed::zero());
}

#[test]
fn products_saturate() {
    let big = Fixed::from_int(i32::MAX);
    assert_eq!(big.mul(big), raw(i64::MAX));
    assert_eq!(big.mul(big.neg()), raw(i64::MIN));
    assert_eq!(raw(i64::MIN).mul(raw(i64::MIN)), raw(i64::MAX));
    assert_eq!(raw(i64::MIN).mul(Fixed::one()), raw(i64::MIN));
}

#[test]
fn quotients_round_toward_zero() {
    assert_eq!(Fixed::from_int(1).div(Fixed::from_int(3)), raw(1_431_655_765));
    assert_eq!(Fixed::from_int(-1).div(Fixed::from_int(3)), raw(-1_431_655_765));
    assert_eq!(Fixed::from_int(1).div(Fixed::from_int(-3)), raw(-1_431_655_765));
    assert_eq!(Fixed::from_int(-1).div(Fixed::from_int(-3)), raw(1_431_655_765));
    assert_eq!(Fixed::from_int(42).div(Fixed::from_int(7)), Fixed::from_int(6));
}

#[test]
fn quotients_by_zero_saturate_by_sign() {
    assert_eq!(Fixed::one().div(Fixed::zero()), raw(i64::MAX));
    assert_eq!(Fixed::one().neg().div(Fixed::zero()), raw(i64::MIN));
    assert_eq!(Fixed::zero().div(Fixed::zero()), Fixed::zero());
}

#[test]
fn quotients_saturate() {
    assert_eq!(Fixed::from_int(i32::MAX).div(raw(1)), raw(i64::MAX));
    assert_eq!(Fixed::from_int(i32::MAX).div(raw(-1)), raw(i64::MIN));
    assert_eq!(raw(i64::MIN).div(Fixed::one().neg()), raw(i64::MAX));
}

#[test]
fn ratios_match_the_stock_tuning() {
    assert_eq!(Fixed::from_ratio(-707, 1000).raw, -3_036_541_878);
    assert_eq!(Fixed::from_ratio(707, 1000).raw, 3_036_541_878);
    assert_eq!(Fixed::from_ratio(2, 100).raw, 85_899_345);
    assert_eq!(Fixed::from_ratio(1, 10).raw, 429_496_729);
    assert_eq!(Fixed::from_ratio(1, 2).raw, 2_147_483_648);
    assert_eq!(Fixed::from_ratio(1, 0).raw, i64::MAX);
}

#[test]
fn max_min_and_clamp_pick_by_order() {
    assert_eq!(raw(3).max(raw(-4)), raw(3));
    assert_eq!(raw(3).min(raw(-4)), raw(-4));
    assert_eq!(raw(5).clamp(raw(0), raw(4)), raw(4));
    assert_eq!(raw(-5).clamp(raw(0), raw(4)), raw(0));
    assert_eq!(raw(2).clamp(raw(0), raw(4)), raw(2));
    assert_eq!(raw(2).clamp(raw(2), raw(2)), raw(2));
    assert!(raw(0).is_zero());
    assert!(!raw(1).is_zero());
}
