use global_price_index::decimal::parse_decimal;

#[test]
fn parses_integer_and_fraction_text() {
    assert_eq!(parse_decimal("50000.01000000"), Some(5_000_001_000_000));
    assert_eq!(parse_decimal("0.00000001"), Some(1));
    assert_eq!(parse_decimal("42"), Some(4_200_000_000));
    assert_eq!(parse_decimal("1.5"), Some(150_000_000));
    assert_eq!(parse_decimal("-0.5"), Some(-50_000_000));
    assert_eq!(parse_decimal("007.10"), Some(710_000_000));
}

#[test]
fn rounds_past_the_eighth_fraction_digit() {
    assert_eq!(parse_decimal("1.1234567800"), Some(112_345_678));
    assert_eq!(parse_decimal("1.123456789"), Some(112_345_679));
    assert_eq!(parse_decimal("1.123456784999"), Some(112_345_678));
    assert_eq!(parse_decimal("1.123456785"), Some(112_345_679));
    assert_eq!(parse_decimal("-0.000000005"), Some(-1));
    assert_eq!(parse_decimal("0.999999999"), Some(100_000_000));
}

#[test]
fn accepts_sign_and_bare_point_forms() {
    assert_eq!(parse_decimal(".5"), Some(50_000_000));
    assert_eq!(parse_decimal("5."), Some(500_000_000));
    assert_eq!(parse_decimal("+1"), Some(100_000_000));
    assert_eq!(parse_decimal("-.25"), Some(-25_000_000));
}

#[test]
fn rejects_malformed_text() {
    for s in ["", "-", "+", ".", "-.", "1.2.3", "1e5", " 1", "1 ", "abc", "--1", "+-1", "1,5"] {
        assert_eq!(parse_decimal(s), None, "{:?}", s);
    }
}

#[test]
fn rejects_values_beyond_i64() {
    assert_eq!(parse_decimal("92233720368.54775807"), Some(i64::MAX));
    assert_eq!(parse_decimal("92233720368.54775808"), None);
    assert_eq!(parse_decimal("-92233720368.54775807"), Some(-i64::MAX));
    assert_eq!(parse_decimal("99999999999999999999999"), None);
}
