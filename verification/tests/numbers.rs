use simple_math_lib::number::{Number, MAX_SCALE};

fn dec(text: &str) -> Number {
    Number::from_decimal_text(text).expect("not a literal")
}

fn whole(v: i64) -> Number {
    Number::from_i64(v)
}

#[test]
fn integers_are_written_at_scale_zero() {
    assert_eq!(whole(5), Number::from_parts(vec![5], 0));
    assert_eq!(whole(-1), Number::from_parts(vec![255], 0));
    assert_eq!(whole(0).scale(), 0);
    assert_eq!(whole(300).bytes(), &vec![44, 1]);
    assert_eq!(whole(i64::MIN).to_text(), "-9223372036854775808");
}

#[test]
fn decimal_literals_keep_their_scale() {
    assert_eq!(dec("1.5"), Number::from_parts(vec![15], 1));
    assert_eq!(dec("2.50"), Number::from_parts(vec![250, 0], 2));
    assert_eq!(dec("-0.25"), Number::from_parts(vec![231], 2));
    assert_eq!(dec("7"), whole(7));
    assert_eq!(dec("1e3"), Number::from_parts(vec![1], -3));
    assert_eq!(Number::from_decimal_text("abc"), None);
    assert_eq!(Number::from_decimal_text(""), None);
}

#[test]
fn radix_literals() {
    assert_eq!(Number::from_radix_text("ff", 16), Some(whole(255)));
    assert_eq!(Number::from_radix_text("101", 2), Some(whole(5)));
    assert_eq!(Number::from_radix_text("17", 8), Some(whole(15)));
    assert_eq!(Number::from_radix_text("2", 2), None);
    assert_eq!(Number::from_radix_text("", 16), None);
    assert_eq!(Number::from_radix_text("10", 10), None);
    assert_eq!(Number::from_radix_text("10", 1), None);
    assert_eq!(Number::from_radix_text("10", 37), None);
}

#[test]
fn zero_and_sign() {
    assert!(whole(0).is_zero());
    assert!(dec("0.00").is_zero());
    assert!(!whole(1).is_zero());
    assert!(whole(-1).is_negative());
    assert!(dec("-0.5").is_negative());
    assert!(!whole(0).is_negative());
    assert!(!whole(2).is_negative());
}

#[test]
fn negation_and_magnitude() {
    assert_eq!(whole(5).negated(), whole(-5));
    assert_eq!(dec("-1.5").negated(), dec("1.5"));
    assert_eq!(whole(0).negated(), whole(0));
    assert_eq!(whole(-5).magnitude(), whole(5));
    assert_eq!(whole(5).magnitude(), whole(5));
    assert_eq!(dec("-2.50").magnitude(), dec("2.50"));
}

#[test]
fn same_value_ignores_the_scale() {
    assert!(dec("1.0").same_value(&whole(1)));
    assert!(dec("2.50").same_value(&dec("2.5")));
    assert!(dec("1e2").same_value(&whole(100)));
    assert!(!whole(1).same_value(&whole(2)));
    assert!(!dec("1.5").same_value(&dec("-1.5")));
    assert!(whole(0).same_value(&dec("0.000")));
}

#[test]
fn sum_is_written_at_the_larger_scale() {
    assert_eq!(whole(2).plus(&whole(3)), Some(whole(5)));
    assert_eq!(dec("1.10").plus(&whole(2)), Some(dec("3.10")));
    assert_eq!(dec("1.5").plus(&dec("0.25")), Some(dec("1.75")));
    assert_eq!(whole(0).plus(&dec("1.50")), Some(dec("1.50")));
    assert_eq!(whole(7).plus(&dec("0.00")), Some(dec("7.00")));
    assert_eq!(dec("0.0").plus(&whole(7)), Some(dec("7.0")));
    assert_eq!(whole(-5).plus(&whole(5)), Some(whole(0)));
}

#[test]
fn difference_keeps_the_left_side_when_subtracting_zero() {
    assert_eq!(whole(5).minus(&whole(3)), Some(whole(2)));
    assert_eq!(whole(7).minus(&dec("0.00")), Some(whole(7)));
    assert_eq!(whole(0).minus(&dec("1.50")), Some(dec("-1.50")));
    assert_eq!(dec("1.5").minus(&dec("0.25")), Some(dec("1.25")));
    assert_eq!(whole(1).minus(&dec("0.5")), Some(dec("0.5")));
    assert_eq!(whole(3).minus(&whole(3)), Some(whole(0)));
}

#[test]
fn product_adds_the_scales_unless_a_factor_is_one() {
    assert_eq!(whole(6).times(&whole(7)), Some(whole(42)));
    assert_eq!(dec("1.5").times(&dec("2.0")), Some(dec("3.00")));
    assert_eq!(dec("1.0").times(&dec("2.5")), Some(dec("2.5")));
    assert_eq!(dec("2.5").times(&dec("1.00")), Some(dec("2.5")));
    assert_eq!(whole(1).times(&dec("2.50")), Some(dec("2.50")));
    assert_eq!(whole(0).times(&dec("2.50")), Some(dec("0.00")));
    assert_eq!(whole(-2).times(&whole(3)), Some(whole(-6)));
    assert_eq!(dec("0.5").times(&dec("0.5")), Some(dec("0.25")));
}

#[test]
fn quotient() {
    assert!(whole(6).over(&whole(3)).unwrap().same_value(&whole(2)));
    assert!(whole(1).over(&whole(8)).unwrap().same_value(&dec("0.125")));
    assert!(whole(-1).over(&whole(4)).unwrap().same_value(&dec("-0.25")));
    assert_eq!(whole(1).over(&whole(0)), None);
    assert_eq!(whole(1).over(&dec("0.00")), None);
    assert_eq!(whole(1).over(&whole(3)), whole(1).over(&whole(3)));
}

#[test]
fn integer_part_drops_the_fraction_toward_zero() {
    assert_eq!(dec("1.9").truncated(), Some(whole(1)));
    assert_eq!(dec("-1.9").truncated(), Some(whole(-1)));
    assert_eq!(dec("0.5").truncated(), Some(whole(0)));
    assert_eq!(dec("1e2").truncated(), Some(whole(100)));
    assert_eq!(whole(7).truncated(), Some(whole(7)));
}

#[test]
fn whole_numbers() {
    assert_eq!(whole(5).is_whole(), Some(true));
    assert_eq!(dec("5.00").is_whole(), Some(true));
    assert_eq!(dec("1e3").is_whole(), Some(true));
    assert_eq!(dec("5.01").is_whole(), Some(false));
    assert_eq!(dec("-0.5").is_whole(), Some(false));
    assert_eq!(whole(0).is_whole(), Some(true));
}

#[test]
fn conversion_to_primitives() {
    assert_eq!(whole(5).to_i64(), Some(5));
    assert_eq!(whole(-5).to_i64(), Some(-5));
    assert_eq!(dec("1.9").to_i64(), Some(1));
    assert_eq!(dec("-1.9").to_i64(), Some(-1));
    assert_eq!(dec("9223372036854775807").to_i64(), Some(i64::MAX));
    assert_eq!(dec("-9223372036854775808").to_i64(), Some(i64::MIN));
    assert_eq!(dec("9223372036854775808").to_i64(), None);
    assert_eq!(dec("-9223372036854775809").to_i64(), None);
    assert_eq!(whole(5).to_usize(), Some(5));
    assert_eq!(whole(0).to_usize(), Some(0));
    assert_eq!(dec("2.7").to_usize(), Some(2));
    assert_eq!(whole(-1).to_usize(), None);
    assert_eq!(dec("-0.5").to_usize(), None);
    assert_eq!(dec("340282366920938463463374607431768211456").to_usize(), None);
}

#[test]
fn remainder_has_the_sign_of_the_left_side() {
    assert_eq!(whole(7).remainder(&whole(3)), Some(whole(1)));
    assert_eq!(whole(-7).remainder(&whole(3)), Some(whole(-1)));
    assert_eq!(whole(7).remainder(&whole(-3)), Some(whole(1)));
    assert_eq!(whole(-7).remainder(&whole(-3)), Some(whole(-1)));
    assert_eq!(dec("7.9").remainder(&dec("3.9")), Some(whole(1)));
    assert_eq!(whole(6).remainder(&whole(3)), Some(whole(0)));
    assert_eq!(whole(7).remainder(&whole(0)), None);
    assert_eq!(whole(7).remainder(&dec("0.9")), None);
}

#[test]
fn shifts() {
    assert_eq!(whole(1).shifted_left(3), Some(whole(8)));
    assert_eq!(whole(-1).shifted_left(2), Some(whole(-4)));
    assert_eq!(whole(5).shifted_left(0), Some(whole(5)));
    assert_eq!(
        whole(1).shifted_left(64).map(|n| n.to_text()),
        Some("18446744073709551616".to_string())
    );
    assert_eq!(whole(16).shifted_right(2), Some(whole(4)));
    assert_eq!(whole(5).shifted_right(1), Some(whole(2)));
    assert_eq!(whole(-5).shifted_right(1), Some(whole(-3)));
    assert_eq!(whole(-1).shifted_right(10), Some(whole(-1)));
    assert_eq!(whole(5).shifted_right(0), Some(whole(5)));
}

#[test]
fn text_of_a_number() {
    assert_eq!(whole(42).to_text(), "42");
    assert_eq!(whole(-42).to_text(), "-42");
    assert_eq!(dec("1.50").to_text(), "1.50");
    assert_eq!(dec("0.001").to_text(), "0.001");
    assert_eq!(whole(0).to_text(), "0");
}

#[test]
fn copies_are_equal() {
    let n = dec("123456789012345678901234567890.5");
    assert_eq!(n.duplicate(), n);
}

#[test]
fn scales_beyond_the_limit_are_refused() {
    let far = Number::from_parts(vec![1], MAX_SCALE + 1);
    let near = Number::from_parts(vec![1], MAX_SCALE);
    let low = Number::from_parts(vec![1], -MAX_SCALE - 1);
    assert!(!far.in_range());
    assert!(!low.in_range());
    assert!(near.in_range());
    assert!(whole(1).in_range());
    assert_eq!(far.plus(&whole(1)), None);
    assert_eq!(whole(1).plus(&far), None);
    assert_eq!(far.minus(&whole(1)), None);
    assert_eq!(far.times(&whole(2)), None);
    assert_eq!(whole(1).over(&far), None);
    assert_eq!(far.truncated(), None);
    assert_eq!(far.is_whole(), None);
    assert_eq!(far.to_i64(), None);
    assert_eq!(far.to_usize(), None);
    assert_eq!(far.remainder(&whole(2)), None);
    assert_eq!(far.shifted_left(1), None);
    assert_eq!(low.shifted_right(1), None);
    assert!(near.times(&whole(2)).is_some());
}
