use terminusdb_10_to_11::decimal::normalize_decimal;
use terminusdb_10_to_11::values::DataConversionError;

fn check_decimal(input: &str, expected: &str) {
    assert_eq!(expected, normalize_decimal(input).unwrap());
}

#[test]
fn check_normalization() {
    check_decimal("1.03432e+10", "10343200000");
    check_decimal("1.03432e-10", "0.000000000103432");
    check_decimal("1.03432e+2", "103.432");
}

#[test]
fn plain_decimals_are_kept() {
    check_decimal("42", "42");
    check_decimal("-0.5", "-0.5");
    check_decimal("007.100", "007.100");
}

#[test]
fn exponent_edge_cases() {
    check_decimal("1.5e+0", "1.5");
    check_decimal("1.5E-0", "1.5");
    check_decimal("1.e+3", "1000");
    check_decimal("-2.5e+1", "-25");
    check_decimal("-2.5e-1", "-0.25");
    check_decimal("12.34e+2", "1234");
}

#[test]
fn negative_exponents_keep_the_value() {
    check_decimal("12.5e-1", "1.25");
    check_decimal("12.5e-2", "0.125");
    check_decimal("12.5e-3", "0.0125");
    check_decimal("123.e-1", "12.3");
    check_decimal("-12.5e-1", "-1.25");
}

#[test]
fn malformed_decimals_are_refused() {
    for s in ["", "-", "1.", ".5", "1e5", "1.5e5", "1.5e+", "abc", "1.5e+99999999999999999999999"] {
        match normalize_decimal(s) {
            Err(e) => assert_eq!(e.value, s),
            Ok(v) => panic!("{s:?} gave {v:?}"),
        }
    }
}

#[test]
fn decimal_error_becomes_a_parse_error() {
    let e = normalize_decimal("x").unwrap_err();
    match DataConversionError::from_decimal_error(e) {
        DataConversionError::ParseError { value, typ } => {
            assert_eq!(value, "x");
            assert_eq!(typ, "http://www.w3.org/2001/XMLSchema#decimal");
        }
        other => panic!("unexpected {other:?}"),
    }
}
