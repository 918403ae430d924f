use distribution::amount::{parse_amount, split_minor_units, to_minor_units, MINOR_UNITS_PER_TOKEN};

#[test]
fn whole_amount_scales_to_minor_units() {
    assert_eq!(parse_amount("1"), Some(1_000_000_000_000_000_000u128));
    assert_eq!(parse_amount("42"), Some(42_000_000_000_000_000_000u128));
    assert_eq!(parse_amount("0"), Some(0));
}

#[test]
fn fractional_amount_scales_each_digit() {
    assert_eq!(parse_amount("1.5"), Some(1_500_000_000_000_000_000u128));
    assert_eq!(parse_amount("0.000000000000000001"), Some(1));
    assert_eq!(parse_amount("2.25"), Some(2_250_000_000_000_000_000u128));
}

#[test]
fn precision_beyond_eighteen_decimals_is_truncated() {
    // The nineteenth fractional digit is dropped, not rounded.
    assert_eq!(parse_amount("0.0000000000000000019"), Some(1));
    assert_eq!(parse_amount("1.0000000000000000009"), Some(1_000_000_000_000_000_000u128));
}

#[test]
fn malformed_amounts_are_rejected() {
    assert_eq!(parse_amount(""), None);
    assert_eq!(parse_amount("."), None);
    assert_eq!(parse_amount(".5"), None);
    assert_eq!(parse_amount("5."), None);
    assert_eq!(parse_amount("1.2.3"), None);
    assert_eq!(parse_amount("1e5"), None);
    assert_eq!(parse_amount("-1"), None);
    assert_eq!(parse_amount("1,5"), None);
}

#[test]
fn whole_part_beyond_u64_is_rejected() {
    assert_eq!(parse_amount("18446744073709551615"), Some(18446744073709551615u128 * MINOR_UNITS_PER_TOKEN));
    assert_eq!(parse_amount("18446744073709551616"), None);
}

#[test]
fn round_trip_preserves_parts() {
    let v = to_minor_units(7, 123_456_789_000_000_000);
    let (whole, frac) = split_minor_units(v);
    assert_eq!(whole, 7);
    assert_eq!(frac, 123_456_789_000_000_000);
    assert_eq!(to_minor_units(whole as u64, frac as u64), v);
}

#[test]
fn round_trip_of_parsed_amount_is_exact() {
    let v = parse_amount("3.141592653589793238462").unwrap();
    let (whole, frac) = split_minor_units(v);
    assert_eq!(whole, 3);
    assert_eq!(frac, 141_592_653_589_793_238);
    assert_eq!(to_minor_units(whole as u64, frac as u64), v);
}
