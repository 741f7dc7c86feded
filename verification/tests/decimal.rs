use paycal::Decimal;

#[test]
fn equal_numbers_with_different_scales_are_equal() {
    assert_eq!(Decimal::new(20, 0), Decimal::new(200, 1));
    assert_ne!(Decimal::new(20, 0), Decimal::new(201, 1));
    assert_eq!(Decimal::new(0, 0), Decimal::new(0, 5));
}

#[test]
fn from_parts_refuses_out_of_range_values() {
    assert!(Decimal::from_parts(1, 29).is_none());
    assert!(Decimal::from_parts(79228162514264337593543950336, 0).is_none());
    assert!(Decimal::from_parts(-79228162514264337593543950335, 28).is_some());
}

#[test]
fn exact_product_adds_scales() {
    let p = Decimal::new(125, 2).checked_mul(Decimal::new(-3, 1)).unwrap();
    assert_eq!(p.mantissa(), -375);
    assert_eq!(p.scale(), 3);
}

#[test]
fn product_with_zero_is_zero_at_scale_zero() {
    let p = Decimal::new(0, 4).checked_mul(Decimal::new(7, 2)).unwrap();
    assert_eq!(p.mantissa(), 0);
    assert_eq!(p.scale(), 0);
}

#[test]
fn overflowing_product_is_none() {
    let big = Decimal::from_parts(79228162514264337593543950335, 0).unwrap();
    assert!(big.checked_mul(Decimal::new(2, 0)).is_none());
}

#[test]
fn quotient_by_zero_is_none() {
    assert!(Decimal::new(1, 0).checked_div(Decimal::new(0, 3)).is_none());
}

#[test]
fn exact_quotient_subtracts_scales() {
    let q = Decimal::new(30720000, 3).checked_div(Decimal::new(120, 1)).unwrap();
    assert_eq!(q.mantissa(), 256000);
    assert_eq!(q.scale(), 2);
}

#[test]
fn rounded_quotient() {
    let q = Decimal::new(1, 0).checked_div(Decimal::new(3, 0)).unwrap();
    assert_eq!(q.round_dp(4), Decimal::new(3333, 4));
}

#[test]
fn round_dp_rounds_half_to_even() {
    assert_eq!(Decimal::new(25, 1).round_dp(0), Decimal::new(2, 0));
    assert_eq!(Decimal::new(35, 1).round_dp(0), Decimal::new(4, 0));
    assert_eq!(Decimal::new(-25, 1).round_dp(0), Decimal::new(-2, 0));
    assert_eq!(Decimal::new(12346, 4).round_dp(3), Decimal::new(1235, 3));
    assert_eq!(Decimal::new(17333333, 4).round_dp(2), Decimal::new(173333, 2));
    let kept = Decimal::new(15, 1).round_dp(3);
    assert_eq!(kept.mantissa(), 15);
    assert_eq!(kept.scale(), 1);
}

#[test]
fn parse_reads_decimal_text() {
    let d = Decimal::parse("22.75").unwrap();
    assert_eq!(d.mantissa(), 2275);
    assert_eq!(d.scale(), 2);
    assert_eq!(Decimal::parse("-1").unwrap(), Decimal::new(-1, 0));
    assert!(Decimal::parse("abc").is_none());
    assert!(Decimal::parse("").is_none());
}

#[test]
fn sign_tests() {
    assert!(Decimal::new(-1, 3).is_negative());
    assert!(!Decimal::new(0, 3).is_negative());
    assert!(!Decimal::new(0, 3).is_positive());
    assert!(Decimal::new(1, 3).is_positive());
    assert_eq!(Decimal::from_u8(7), Decimal::new(7, 0));
    assert_eq!(Decimal::zero(), Decimal::new(0, 2));
}
