use payment_engine::{Amount, AmountError, AmountVisitor};

fn deserialize_str(s: &str) -> Result<Amount, AmountError> {
    assert!(AmountVisitor.fits(s));
    AmountVisitor.visit_str(s)
}

#[test]
fn test_deserialize_integer_only() {
    assert_eq!(deserialize_str("42").unwrap(), Amount(420_000));
}

#[test]
fn test_deserialize_with_decimal() {
    assert_eq!(deserialize_str("1.5").unwrap(), Amount(15_000));
}

#[test]
fn test_deserialize_full_four_decimals() {
    assert_eq!(deserialize_str("1.5000").unwrap(), Amount(15_000));
}

#[test]
fn test_deserialize_leading_zeros_in_decimal() {
    assert_eq!(deserialize_str("1.0005").unwrap(), Amount(10_005));
}

#[test]
fn test_deserialize_zero() {
    assert_eq!(deserialize_str("0.0000").unwrap(), Amount::zero());
}

#[test]
fn test_deserialize_trims_whitespace() {
    assert_eq!(deserialize_str(" 1.5 ").unwrap(), Amount(15_000));
}

#[test]
fn test_deserialize_single_decimal_digit() {
    assert_eq!(deserialize_str("1.1").unwrap(), Amount(11_000));
}

#[test]
fn test_deserialize_too_many_decimal_places_errors() {
    assert!(deserialize_str("1.12345").is_err());
}

#[test]
fn test_deserialize_invalid_integer_part_errors() {
    assert!(deserialize_str("abc.5").is_err());
}

#[test]
fn test_deserialize_invalid_decimal_part_errors() {
    assert!(deserialize_str("1.5a").is_err());
}

#[test]
fn test_deserialize_negative_errors() {
    assert!(deserialize_str("-1.5").is_err());
}

#[test]
fn test_deserialize_empty_string_errors() {
    assert!(deserialize_str("").is_err());
}

#[test]
fn test_deserialize_multiple_dots_errors() {
    assert!(deserialize_str("1.2.3").is_err());
}

#[test]
fn test_deserialize_error_kinds() {
    assert_eq!(deserialize_str("1.12345"), Err(AmountError::TooManyDecimalPlaces));
    assert_eq!(deserialize_str("abc.5"), Err(AmountError::InvalidIntegerPart));
    assert_eq!(deserialize_str("1.5a"), Err(AmountError::InvalidDecimalPart));
    assert_eq!(deserialize_str("-1.5"), Err(AmountError::InvalidIntegerPart));
    assert_eq!(deserialize_str(""), Err(AmountError::InvalidIntegerPart));
    assert_eq!(deserialize_str("1.2.3"), Err(AmountError::InvalidDecimalPart));
    assert_eq!(deserialize_str(".5"), Err(AmountError::InvalidIntegerPart));
}

#[test]
fn test_deserialize_follows_u64_from_str() {
    // `u64::from_str` takes one leading '+', on either part
    assert_eq!(deserialize_str("+7"), Ok(Amount(70_000)));
    assert_eq!(deserialize_str("1.+5"), Ok(Amount(10_500)));
    assert_eq!(deserialize_str("++7"), Err(AmountError::InvalidIntegerPart));
    assert_eq!(deserialize_str("+"), Err(AmountError::InvalidIntegerPart));
    // a trailing dot leaves no decimals
    assert_eq!(deserialize_str("3."), Ok(Amount(30_000)));
}

#[test]
fn test_deserialize_trims_unicode_whitespace() {
    assert_eq!(deserialize_str("\u{a0}\t1.25\u{3000}\n"), Ok(Amount(12_500)));
}

#[test]
fn test_deserialize_counts_decimal_bytes() {
    // one two-byte character fits in four bytes but is no digit
    assert_eq!(deserialize_str("1.\u{e9}"), Err(AmountError::InvalidDecimalPart));
    // three two-byte characters take six bytes
    assert_eq!(
        deserialize_str("1.\u{e9}\u{e9}\u{e9}"),
        Err(AmountError::TooManyDecimalPlaces)
    );
}

#[test]
fn test_fits_rejects_amounts_beyond_u64() {
    assert!(AmountVisitor.fits("1844674407370955.1615"));
    assert_eq!(
        AmountVisitor.visit_str("1844674407370955.1615"),
        Ok(Amount(u64::MAX))
    );
    assert!(!AmountVisitor.fits("1844674407370955.1616"));
    assert!(!AmountVisitor.fits("18446744073709551615"));
    // a whole part beyond u64 is no amount at all, so it fits
    assert!(AmountVisitor.fits("18446744073709551616"));
    assert_eq!(
        deserialize_str("18446744073709551616"),
        Err(AmountError::InvalidIntegerPart)
    );
}

#[test]
fn test_to_decimal_string() {
    assert_eq!(Amount(15_000).to_decimal_string(), "1.5000");
    assert_eq!(Amount::zero().to_decimal_string(), "0.0000");
    assert_eq!(Amount(10_005).to_decimal_string(), "1.0005");
    assert_eq!(Amount(123_456_789).to_decimal_string(), "12345.6789");
    assert_eq!(Amount(u64::MAX).to_decimal_string(), "1844674407370955.1615");
}

#[test]
fn test_decimal_string_reads_back() {
    for v in [0u64, 1, 9_999, 10_000, 15_000, 987_654_321, u64::MAX] {
        let text = Amount(v).to_decimal_string();
        assert!(AmountVisitor.fits(&text));
        assert_eq!(AmountVisitor.visit_str(&text), Ok(Amount(v)));
    }
}
