use double_pendulum::fixed::{Fixed, RAW_MAX, SCALE};

fn fx(value: f64) -> Fixed {
    Fixed::from_raw((value * SCALE as f64).round() as i64)
}

#[test]
fn scale_is_two_to_the_thirty_two() {
    assert_eq!(SCALE, 4_294_967_296);
    assert_eq!(RAW_MAX, i64::MAX);
}

#[test]
fn from_int_scales_whole_numbers() {
    assert_eq!(Fixed::from_int(200).raw(), 858_993_459_200);
    assert_eq!(Fixed::from_int(-1).raw(), -4_294_967_296);
    assert_eq!(Fixed::from_int(0).raw(), 0);
    assert_eq!(Fixed::from_int(i32::MIN).raw(), i64::MIN);
}

#[test]
fn from_raw_round_trips() {
    assert_eq!(Fixed::from_raw(12345).raw(), 12345);
    assert_eq!(Fixed::from_raw(i64::MIN).raw(), i64::MIN);
}

#[test]
fn sign_tests() {
    assert!(Fixed::from_raw(1).is_positive());
    assert!(!Fixed::from_raw(0).is_positive());
    assert!(!Fixed::from_raw(-1).is_positive());
    assert!(Fixed::from_raw(0).is_zero());
    assert!(!Fixed::from_raw(1).is_zero());
}

#[test]
fn plus_and_minus_are_exact_in_range() {
    assert_eq!(fx(1.5).plus(fx(2.25)), fx(3.75));
    assert_eq!(fx(1.5).minus(fx(2.25)), fx(-0.75));
    assert_eq!(Fixed::from_raw(7).negated(), Fixed::from_raw(-7));
}

#[test]
fn plus_and_minus_saturate() {
    let top = Fixed::from_raw(RAW_MAX);
    let bottom = Fixed::from_raw(i64::MIN);
    assert_eq!(top.plus(Fixed::from_raw(1)).raw(), RAW_MAX);
    assert_eq!(top.negated().minus(Fixed::from_raw(5)).raw(), -RAW_MAX);
    assert_eq!(bottom.plus(Fixed::from_raw(0)).raw(), -RAW_MAX);
    assert_eq!(bottom.negated().raw(), RAW_MAX);
    assert_eq!(bottom.minus(top).raw(), -RAW_MAX);
}

#[test]
fn times_rescales_the_product() {
    assert_eq!(fx(1.5).times(fx(2.25)).raw(), 14_495_514_624);
    assert_eq!(Fixed::from_int(3).times(Fixed::from_int(-4)), Fixed::from_int(-12));
    assert_eq!(Fixed::from_int(1).times(fx(0.125)), fx(0.125));
}

#[test]
fn times_rounds_toward_zero() {
    let half = Fixed::from_raw(SCALE / 2);
    assert_eq!(Fixed::from_raw(7).times(half).raw(), 3);
    assert_eq!(Fixed::from_raw(-7).times(half).raw(), -3);
    assert_eq!(Fixed::from_raw(1).times(half).raw(), 0);
}

#[test]
fn times_saturates() {
    let top = Fixed::from_raw(RAW_MAX);
    let bottom = Fixed::from_raw(i64::MIN);
    assert_eq!(top.times(Fixed::from_int(2)).raw(), RAW_MAX);
    assert_eq!(top.negated().times(Fixed::from_int(2)).raw(), -RAW_MAX);
    assert_eq!(bottom.times(bottom).raw(), RAW_MAX);
}

#[test]
fn over_divides_and_rounds_toward_zero() {
    assert_eq!(Fixed::from_int(7).over(Fixed::from_int(2)).raw(), 15_032_385_536);
    assert_eq!(Fixed::from_int(1).over(Fixed::from_int(3)).raw(), 1_431_655_765);
    assert_eq!(Fixed::from_int(-1).over(Fixed::from_int(3)).raw(), -1_431_655_765);
    assert_eq!(Fixed::from_int(1).over(Fixed::from_int(-3)).raw(), -1_431_655_765);
    assert_eq!(Fixed::from_raw(5).over(Fixed::from_int(2)).raw(), 2);
    assert_eq!(Fixed::from_raw(0).over(Fixed::from_raw(-1)).raw(), 0);
}

#[test]
fn over_saturates() {
    assert_eq!(Fixed::from_int(1).over(Fixed::from_raw(1)).raw(), RAW_MAX);
    assert_eq!(Fixed::from_int(-1).over(Fixed::from_raw(1)).raw(), -RAW_MAX);
    assert_eq!(Fixed::from_raw(i64::MIN).over(Fixed::from_raw(-1)).raw(), RAW_MAX);
}
