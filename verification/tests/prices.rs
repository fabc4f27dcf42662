use okx_feed::classify::dec_le_exec;
use okx_feed::decimal::parse_decimal;
use okx_feed::types::Decimal;

#[test]
fn parse_plain_integer() {
    assert_eq!(parse_decimal("60000"), Some(Decimal { mantissa: 60000, scale: 0 }));
    assert_eq!(parse_decimal("0"), Some(Decimal { mantissa: 0, scale: 0 }));
    assert_eq!(parse_decimal("007"), Some(Decimal { mantissa: 7, scale: 0 }));
}

#[test]
fn parse_fractional() {
    assert_eq!(parse_decimal("60000.1"), Some(Decimal { mantissa: 600001, scale: 1 }));
    assert_eq!(parse_decimal("0.5"), Some(Decimal { mantissa: 5, scale: 1 }));
    assert_eq!(parse_decimal("1.250"), Some(Decimal { mantissa: 1250, scale: 3 }));
}

#[test]
fn parse_rejects_bad_shapes() {
    assert_eq!(parse_decimal(""), None);
    assert_eq!(parse_decimal("."), None);
    assert_eq!(parse_decimal("1."), None);
    assert_eq!(parse_decimal(".5"), None);
    assert_eq!(parse_decimal("1.2.3"), None);
    assert_eq!(parse_decimal("-1"), None);
    assert_eq!(parse_decimal("1e5"), None);
    assert_eq!(parse_decimal("abc"), None);
    assert_eq!(parse_decimal("60 000"), None);
}

#[test]
fn parse_rejects_too_many_digits() {
    assert_eq!(parse_decimal("999999999999999999"), Some(Decimal {
        mantissa: 999999999999999999,
        scale: 0,
    }));
    assert_eq!(parse_decimal("9999999999999999999"), None, "nineteen digits exceed the budget");
    assert_eq!(parse_decimal("12345678901234567.8"), Some(Decimal {
        mantissa: 123456789012345678,
        scale: 1,
    }));
    assert_eq!(parse_decimal("123456789012345678.9"), None);
}

#[test]
fn render_round_trips() {
    for text in ["60000.1", "0.5", "3.25", "7", "0.007"] {
        let d = parse_decimal(text).unwrap();
        assert_eq!(d.to_text(), text);
        assert_eq!(parse_decimal(&d.to_text()), Some(d));
    }
    assert_eq!(Decimal { mantissa: 5, scale: 3 }.to_text(), "0.005");
    assert_eq!(Decimal { mantissa: 0, scale: 0 }.to_text(), "0");
    assert_eq!(Decimal { mantissa: 90, scale: 1 }.to_text(), "9.0");
}

#[test]
fn compare_across_scales() {
    let a = parse_decimal("1.50").unwrap();
    let b = parse_decimal("1.5").unwrap();
    assert!(dec_le_exec(&a, &b), "equal values compare equal whatever the scale");
    assert!(dec_le_exec(&b, &a));
    let lo = parse_decimal("60000.1").unwrap();
    let hi = parse_decimal("60000.2").unwrap();
    assert!(dec_le_exec(&lo, &hi));
    assert!(!dec_le_exec(&hi, &lo));
}
