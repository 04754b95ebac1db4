use weather_signal::numeric::{
    decimal_le, number_ge, number_le, number_to_text, parse_number, whole_number, Decimal, Number,
};

fn num(v: f64) -> Number {
    parse_number(&format!("{}", v)).unwrap()
}

#[test]
fn parses_shortest_double_text_exactly() {
    assert_eq!(
        parse_number("25"),
        Some(Number::Finite(Decimal { mantissa: 25, exponent: 0 }))
    );
    assert_eq!(
        parse_number("-0.12"),
        Some(Number::Finite(Decimal { mantissa: -12, exponent: -2 }))
    );
    assert_eq!(
        parse_number("21600"),
        Some(Number::Finite(Decimal { mantissa: 216, exponent: 2 }))
    );
    assert_eq!(parse_number("NaN"), Some(Number::NaN));
    assert_eq!(parse_number("inf"), Some(Number::PosInf));
    assert_eq!(parse_number("-inf"), Some(Number::NegInf));
    assert_eq!(parse_number(""), None);
    assert_eq!(parse_number("1."), None);
    assert_eq!(parse_number(".5"), None);
    assert_eq!(parse_number("1e3"), None);
    assert_eq!(parse_number("12345678901234567890123"), None);
    assert_eq!(
        parse_number(&format!("{}", 1e300)),
        Some(Number::Finite(Decimal { mantissa: 1, exponent: 300 }))
    );
}

#[test]
fn comparisons_follow_doubles() {
    assert!(number_ge(num(25.0), num(25.0)));
    assert!(number_ge(num(25.000001), num(25.0)));
    assert!(!number_ge(num(24.99), num(25.0)));
    assert!(number_le(num(-0.5), num(0.0)));
    assert!(!number_ge(Number::NaN, num(0.0)));
    assert!(!number_le(Number::NaN, Number::NaN));
    assert!(number_ge(Number::PosInf, Number::PosInf));
    assert!(number_ge(num(1e300), num(1e-300)));
    assert!(!number_ge(num(-1e300), num(1e-300)));
    assert!(decimal_le(
        Decimal { mantissa: 1, exponent: 40 },
        Decimal { mantissa: 2, exponent: 40 }
    ));
    assert!(number_ge(num(0.1), whole_number(0)));
}

#[test]
fn text_reads_back_as_the_same_double() {
    for v in [0.1_f64, -0.12, 25.0, 21600.0, 1e300, 5e-324, f64::MAX, -1.5e-7] {
        let text = number_to_text(num(v));
        assert_eq!(text.parse::<f64>().unwrap(), v);
    }
    assert_eq!(number_to_text(num(25.5)), "255e-1");
    assert_eq!(number_to_text(Number::NaN), "NaN");
    assert!(number_to_text(Number::NegInf).parse::<f64>().unwrap().is_infinite());
}

#[test]
fn long_texts_with_few_significant_digits_parse() {
    assert_eq!(
        parse_number("0.00000000000000000000012"),
        Some(Number::Finite(Decimal { mantissa: 12, exponent: -23 }))
    );
    assert_eq!(
        parse_number("-120000000000000000000000"),
        Some(Number::Finite(Decimal { mantissa: -12, exponent: 22 }))
    );
    assert_eq!(
        parse_number("123456789012345678"),
        Some(Number::Finite(Decimal { mantissa: 123456789012345678, exponent: 0 }))
    );
    assert_eq!(
        parse_number("1000000000000000001"),
        Some(Number::Finite(Decimal { mantissa: 1000000000000000001, exponent: 0 }))
    );
    assert_eq!(parse_number("99999999999999999999"), None);
    assert_eq!(
        parse_number("92233720368547758070000"),
        Some(Number::Finite(Decimal { mantissa: 9223372036854775807, exponent: 4 }))
    );
    assert_eq!(parse_number("9223372036854775808"), None);
    assert_eq!(parse_number("-0.9223372036854775808"), None);
    for v in [f64::MAX, f64::MIN_POSITIVE, 5e-324, 1e-7, 123456.789e10] {
        assert!(parse_number(&v.to_string()).is_some(), "{v}");
    }
}
