use distribution::address::parse_address;

#[test]
fn prefixed_address_parses_to_its_bytes() {
    let a = parse_address("0x0102030405060708090a0b0c0d0e0f1011121314").unwrap();
    assert_eq!(
        a.bytes,
        [1, 2, 3, 4, 5, 6, 7, 8, 9, 10, 11, 12, 13, 14, 15, 16, 17, 18, 19, 20]
    );
}

#[test]
fn bare_and_upper_case_addresses_parse() {
    let lower = parse_address("00000000000000000000000000000000000000ff").unwrap();
    assert_eq!(lower.bytes[19], 0xff);
    let upper = parse_address("0x00000000000000000000000000000000000000FF").unwrap();
    assert_eq!(upper.bytes, lower.bytes);
}

#[test]
fn malformed_addresses_are_rejected() {
    assert!(parse_address("").is_none());
    assert!(parse_address("0x").is_none());
    // 39 digits.
    assert!(parse_address("0x010203040506070809aabbccddeeff011223344").is_none());
    // 41 digits.
    assert!(parse_address("0x010203040506070809aabbccddeeff01122334455").is_none());
    // A non-hexadecimal character.
    assert!(parse_address("0x0102030405060708090a0b0c0d0e0f10111213g4").is_none());
}
