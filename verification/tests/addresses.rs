use wallet_stats::address::ADDRESS_BYTES;
use wallet_stats::{parse_addresses, Address, HexFault, StatsError};

const CLAIM: [u8; 20] = [
    0x00, 0x00, 0x00, 0x00, 0x02, 0xba, 0x96, 0xc6, 0x9b, 0x95, 0xe3, 0x2c, 0xaa, 0xb8, 0xfc, 0x38,
    0xba, 0xb8, 0xb3, 0xf8,
];

const VITALIK: [u8; 20] = [
    0xd8, 0xda, 0x6b, 0xf2, 0x69, 0x64, 0xaf, 0x9d, 0x7e, 0xed, 0x9e, 0x03, 0xe5, 0x34, 0x15, 0xd3,
    0x7a, 0xa9, 0x60, 0x45,
];

#[test]
fn address_has_twenty_bytes() {
    assert_eq!(ADDRESS_BYTES, 20);
}

#[test]
fn parse_reads_prefixed_text() {
    let address = Address::parse("0x0000000002ba96C69b95E32CAAB8fc38bAB8B3F8");
    assert_eq!(address, Ok(Address { bytes: CLAIM }));
}

#[test]
fn parse_reads_text_without_prefix() {
    let address = Address::parse("d8da6bf26964af9d7eed9e03e53415d37aa96045");
    assert_eq!(address, Ok(Address { bytes: VITALIK }));
}

#[test]
fn parse_reads_upper_case_and_upper_prefix() {
    let address = Address::parse("0XD8DA6BF26964AF9D7EED9E03E53415D37AA96045");
    assert_eq!(address, Ok(Address { bytes: VITALIK }));
}

#[test]
fn parse_does_not_check_the_checksum() {
    let address = Address::parse("0xD8dA6BF26964aF9D7eEd9e03E53415D37aA96045");
    assert_eq!(address, Ok(Address { bytes: VITALIK }));
    let address = Address::parse("0xd8Da6bf26964af9d7eed9e03e53415d37aa96045");
    assert_eq!(address, Ok(Address { bytes: VITALIK }));
}

#[test]
fn parse_refuses_odd_length() {
    assert_eq!(Address::parse("abc"), Err(HexFault::OddLength));
    assert_eq!(
        Address::parse("0xd8da6bf26964af9d7eed9e03e53415d37aa9604"),
        Err(HexFault::OddLength)
    );
}

#[test]
fn parse_refuses_wrong_length() {
    assert_eq!(Address::parse("not-an-address"), Err(HexFault::InvalidStringLength));
    assert_eq!(Address::parse(""), Err(HexFault::InvalidStringLength));
    assert_eq!(Address::parse("0x"), Err(HexFault::InvalidStringLength));
    assert_eq!(
        Address::parse("0xd8da6bf26964af9d7eed9e03e53415d37aa9604500"),
        Err(HexFault::InvalidStringLength)
    );
}

#[test]
fn parse_names_the_first_bad_character() {
    assert_eq!(
        Address::parse("0xd8da6bf26964af9d7eedZe03e53415d37aa9604g"),
        Err(HexFault::InvalidHexCharacter { c: 'Z', index: 20 })
    );
    assert_eq!(
        Address::parse("g8da6bf26964af9d7eed9e03e53415d37aa96045"),
        Err(HexFault::InvalidHexCharacter { c: 'g', index: 0 })
    );
}

#[test]
fn parse_counts_a_second_prefix_as_digits() {
    assert_eq!(
        Address::parse("0x0xd8da6bf26964af9d7eed9e03e53415d37aa960"),
        Err(HexFault::InvalidHexCharacter { c: 'x', index: 1 })
    );
}

#[test]
fn parse_does_not_trim() {
    assert_eq!(
        Address::parse(" d8da6bf26964af9d7eed9e03e53415d37aa9604"),
        Err(HexFault::InvalidHexCharacter { c: ' ', index: 0 })
    );
    assert_eq!(
        Address::parse(" 0xd8da6bf26964af9d7eed9e03e53415d37aa96045 "),
        Err(HexFault::InvalidStringLength)
    );
}

#[test]
fn parse_takes_text_byte_by_byte() {
    // Thirty-eight digits and one character of two bytes: forty bytes.
    assert_eq!(
        Address::parse("d8da6bf26964af9d7eed9e03e53415d37aa960\u{e9}"),
        Err(HexFault::InvalidHexCharacter { c: '\u{c3}', index: 38 })
    );
}

#[test]
fn to_hex_is_lower_case_with_prefix() {
    let address = Address { bytes: CLAIM };
    assert_eq!(address.to_hex(), "0x0000000002ba96c69b95e32caab8fc38bab8b3f8");
}

#[test]
fn to_checksum_mixes_case() {
    assert_eq!(
        Address { bytes: CLAIM }.to_checksum(),
        "0x0000000002ba96C69b95E32CAAB8fc38bAB8B3F8"
    );
    assert_eq!(
        Address { bytes: VITALIK }.to_checksum(),
        "0xd8dA6BF26964aF9D7eEd9e03E53415D37aA96045"
    );
}

#[test]
fn hex_text_reads_back() {
    let mut bytes = [0u8; 20];
    for (i, byte) in bytes.iter_mut().enumerate() {
        *byte = (i as u8).wrapping_mul(37).wrapping_add(201);
    }
    let address = Address { bytes };
    assert_eq!(Address::parse(&address.to_hex()), Ok(address));
    assert_eq!(Address::parse(&address.to_checksum()), Ok(address));
}

#[test]
fn parse_addresses_keeps_order_and_duplicates() {
    let lines = vec![
        "0xd8da6bf26964af9d7eed9e03e53415d37aa96045".to_string(),
        "0x0000000002ba96C69b95E32CAAB8fc38bAB8B3F8".to_string(),
        "0xd8da6bf26964af9d7eed9e03e53415d37aa96045".to_string(),
    ];
    assert_eq!(
        parse_addresses(&lines),
        Ok(vec![Address { bytes: VITALIK }, Address { bytes: CLAIM }, Address { bytes: VITALIK }])
    );
}

#[test]
fn parse_addresses_of_nothing_is_nothing() {
    assert_eq!(parse_addresses(&Vec::new()), Ok(Vec::new()));
}

#[test]
fn parse_addresses_names_the_first_bad_line() {
    let lines = vec![
        "0xd8da6bf26964af9d7eed9e03e53415d37aa96045".to_string(),
        "not-an-address".to_string(),
        "abc".to_string(),
    ];
    assert_eq!(
        parse_addresses(&lines),
        Err(StatsError::InvalidAddress {
            line: "not-an-address".to_string(),
            fault: HexFault::InvalidStringLength,
        })
    );
}
