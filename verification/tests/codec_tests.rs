use zk_harness::fixed::{from_fixed, parse_decimal, to_fixed, Decimal};
use zk_harness::text::{i64_to_string, u64_to_string};

fn dec(negative: bool, mantissa: u64, frac_digits: u64) -> Decimal {
    Decimal { negative, mantissa, frac_digits }
}

#[test]
fn to_fixed_scales_whole_numbers() {
    assert_eq!(to_fixed(&dec(false, 6, 0), 10_000), 60_000);
    assert_eq!(to_fixed(&dec(false, 6, 0), 100_000), 600_000);
}

#[test]
fn to_fixed_scales_fractions() {
    // 2.5 and 4.25 at five decimal places.
    assert_eq!(to_fixed(&dec(false, 25, 1), 100_000), 250_000);
    assert_eq!(to_fixed(&dec(false, 425, 2), 100_000), 425_000);
    // 3.1415 at four decimal places.
    assert_eq!(to_fixed(&dec(false, 31415, 4), 10_000), 31_415);
}

#[test]
fn to_fixed_rounds_ties_away_from_zero() {
    // 0.000005 * 100000 = 0.5 rounds up to 1.
    assert_eq!(to_fixed(&dec(false, 5, 6), 100_000), 1);
    // -0.000005 rounds away from zero to -1.
    assert_eq!(to_fixed(&dec(true, 5, 6), 100_000), -1);
    // 0.000004 rounds down to 0.
    assert_eq!(to_fixed(&dec(false, 4, 6), 100_000), 0);
}

#[test]
fn to_fixed_negative_values() {
    assert_eq!(to_fixed(&dec(true, 25, 1), 100_000), -250_000);
}

#[test]
fn from_fixed_reads_back_exactly() {
    let d = from_fixed(675_000, 100_000);
    assert!(!d.negative);
    assert_eq!(d.mantissa, 675_000);
    assert_eq!(d.frac_digits, 5);
    let n = from_fixed(-31_415, 10_000);
    assert!(n.negative);
    assert_eq!(n.mantissa, 31_415);
    assert_eq!(n.frac_digits, 4);
}

#[test]
fn round_trip_stays_within_tolerance() {
    // 1.00001 at scale 10^4 rounds to 1.0000; the error is within 1/10^4.
    let d = dec(false, 100_001, 5);
    let fixed = to_fixed(&d, 10_000);
    assert_eq!(fixed, 10_000);
    let back = from_fixed(fixed, 10_000);
    // |10000/10^4 - 100001/10^5| = 0.00001 <= 1/10^4.
    let lhs = (back.mantissa as i128) * 100_000;
    let rhs = (d.mantissa as i128) * 10_000;
    assert!((lhs - rhs).abs() <= 100_000);
}

#[test]
fn decimal_text_parses_exactly() {
    let d = parse_decimal("2.5").unwrap();
    assert_eq!((d.negative, d.mantissa, d.frac_digits), (false, 25, 1));
    let d = parse_decimal("-4.25").unwrap();
    assert_eq!((d.negative, d.mantissa, d.frac_digits), (true, 425, 2));
    let d = parse_decimal("7").unwrap();
    assert_eq!((d.negative, d.mantissa, d.frac_digits), (false, 7, 0));
    let d = parse_decimal("0.0001").unwrap();
    assert_eq!((d.negative, d.mantissa, d.frac_digits), (false, 1, 4));
    // Twenty digits can exceed a u64 mantissa; nineteen cannot.
    assert_eq!(parse_decimal("18446744073709551615"), None);
    let d = parse_decimal("9999999999999999999").unwrap();
    assert_eq!(d.mantissa, 9_999_999_999_999_999_999);
}

#[test]
fn malformed_decimal_text_rejected() {
    for bad in ["", "-", ".", ".5", "5.", "1.2.3", "1a", "- 2", "2.5e3", "+2"] {
        assert_eq!(parse_decimal(bad), None, "{bad:?} should not parse");
    }
}

#[test]
fn parsed_text_reaches_fixed_point() {
    let d = parse_decimal("2.5").unwrap();
    assert_eq!(to_fixed(&d, 100_000), 250_000);
    let d = parse_decimal("-0.00001").unwrap();
    assert_eq!(to_fixed(&d, 100_000), -1);
}

#[test]
fn decimal_rendering() {
    assert_eq!(u64_to_string(0).as_str(), "0");
    assert_eq!(u64_to_string(1_700_000_000).as_str(), "1700000000");
    assert_eq!(i64_to_string(-45).as_str(), "-45");
    assert_eq!(i64_to_string(7).as_str(), "7");
    assert_eq!(i64_to_string(i64::MIN).as_str(), "-9223372036854775808");
}
