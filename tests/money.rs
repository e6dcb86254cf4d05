use event_trading::money::Money;

fn d(s: &str) -> Money {
    Money::parse(s).unwrap()
}

#[test]
fn parse_keeps_mantissa_and_scale() {
    let m = d("50000.01000000");
    assert_eq!(m.mantissa, 5000001000000);
    assert_eq!(m.scale, 8);
    assert_eq!(m.to_string(), "50000.01000000");
}

#[test]
fn parse_refuses_scientific_and_garbage() {
    assert!(Money::parse("1e5").is_err());
    assert!(Money::parse("abc").is_err());
}

#[test]
fn compare_by_value_across_scales() {
    assert_eq!(d("1.0").compare(&d("1.00")), 0);
    assert_eq!(d("0.99").compare(&d("1")), -1);
    assert_eq!(d("-2").compare(&d("-3.5")), 1);
    assert!(d("1.50").eq_value(&d("1.5")));
}

#[test]
fn add_sub_mul_are_exact() {
    let s = d("0.1").checked_add(&d("0.2")).unwrap();
    assert!(s.eq_value(&d("0.3")));
    let t = d("100").checked_sub(&d("98.01")).unwrap();
    assert_eq!(t.to_string(), "1.99");
    let p = d("1.5").checked_mul(&d("0.0005")).unwrap();
    assert_eq!(p.to_string(), "0.00075");
}

#[test]
fn round_half_to_even_at_eight_digits() {
    assert_eq!(d("0.123456785").round_dp(8).to_string(), "0.12345678");
    assert_eq!(d("0.123456775").round_dp(8).to_string(), "0.12345678");
    assert_eq!(d("0.123456789").round_dp(8).to_string(), "0.12345679");
    assert_eq!(d("-0.000000005").round_dp(8).to_string(), "0.00000000");
    assert_eq!(d("2.5").round_dp(0).to_string(), "2");
    assert_eq!(d("3.5").round_dp(0).to_string(), "4");
}

#[test]
fn division_rounds_half_to_even() {
    let q = d("1").div_round(&d("3"), 8).unwrap();
    assert_eq!(q.to_string(), "0.33333333");
    let q = d("2").div_round(&d("3"), 8).unwrap();
    assert_eq!(q.to_string(), "0.66666667");
    let q = d("200").div_round(&d("50"), 8).unwrap();
    assert_eq!(q.to_string(), "4.00000000");
}

#[test]
fn multiplication_out_of_range_is_refused() {
    let big = Money::new(79228162514264337593543950335, 0);
    assert!(big.checked_mul(&d("2")).is_none());
    assert!(big.checked_add(&d("1")).is_none());
}
