//! Account identifiers: twenty bytes, read from and written as hexadecimal
//! text.

use crate::scan::{first_where, lemma_first_where_is};
use vstd::prelude::*;
use vstd::string::StringSliceAdditionalSpecFns;
use vstd::utf8::encode_utf8;

verus! {

/// The number of bytes in an account identifier.
pub const ADDRESS_BYTES: usize = 20;

/// A fixed-width binary account identifier.
#[derive(Clone, Copy, Debug, PartialEq, Eq, Hash)]
pub struct Address {
    pub bytes: [u8; 20],
}

impl View for Address {
    type V = Seq<u8>;

    open spec fn view(&self) -> Seq<u8> {
        self.bytes@
    }
}

/// Why a text is not the hexadecimal form of an address.
#[derive(Clone, Copy, Debug, PartialEq, Eq)]
pub enum HexFault {
    /// A character that is no hexadecimal digit, with its place among the
    /// digits (the prefix is not counted).
    InvalidHexCharacter { c: char, index: usize },
    /// The text holds an odd number of bytes.
    OddLength,
    /// The text does not hold exactly forty digits.
    InvalidStringLength,
}

/// The value of a hexadecimal digit given as an ASCII byte, or `-1` for any
/// other byte.
pub open spec fn hex_digit_value(b: u8) -> int {
    if ('0' as u8) <= b <= ('9' as u8) {
        b - ('0' as u8)
    } else if ('a' as u8) <= b <= ('f' as u8) {
        b - ('a' as u8) + 10
    } else if ('A' as u8) <= b <= ('F' as u8) {
        b - ('A' as u8) + 10
    } else {
        -1
    }
}

/// Whether the ASCII byte `b` is a hexadecimal digit, in either case.
pub open spec fn is_hex_digit(b: u8) -> bool {
    hex_digit_value(b) >= 0
}

/// `input` without a leading `0x` or `0X`.
pub open spec fn strip_hex_prefix(input: Seq<u8>) -> Seq<u8> {
    if input.len() >= 2 && input[0] == ('0' as u8) && (input[1] == ('x' as u8) || input[1] == (
        'X' as u8
    )) {
        input.skip(2)
    } else {
        input
    }
}

/// The index of the first byte of `digits` that is no hexadecimal digit, or
/// the length of `digits` where all are.
pub open spec fn first_bad_digit(digits: Seq<u8>) -> int {
    first_where(digits, |b: u8| !is_hex_digit(b))
}

/// The bytes that pairs of hexadecimal digits stand for.
pub open spec fn hex_decode(digits: Seq<u8>) -> Seq<u8> {
    Seq::new(
        digits.len() / 2,
        |i: int| (16 * hex_digit_value(digits[2 * i]) + hex_digit_value(digits[2 * i + 1])) as u8,
    )
}

/// What reading an address from the bytes of a text gives: the twenty bytes
/// behind forty hexadecimal digits with an optional `0x` prefix, or the first
/// fault found.
pub open spec fn parse_hex_address(input: Seq<u8>) -> Result<Seq<u8>, HexFault> {
    let digits = strip_hex_prefix(input);
    let bad = first_bad_digit(digits);
    if input.len() % 2 != 0 {
        Err(HexFault::OddLength)
    } else if digits.len() != 2 * ADDRESS_BYTES {
        Err(HexFault::InvalidStringLength)
    } else if bad < digits.len() {
        Err(HexFault::InvalidHexCharacter { c: digits[bad] as char, index: bad as usize })
    } else {
        Ok(hex_decode(digits))
    }
}

/// What reading an address from a text gives.
pub open spec fn parse_address(text: Seq<char>) -> Result<Seq<u8>, HexFault> {
    parse_hex_address(encode_utf8(text))
}

/// The outcome of a reading with the address taken by its bytes.
pub open spec fn outcome_view(r: Result<Address, HexFault>) -> Result<Seq<u8>, HexFault> {
    match r {
        Ok(address) => Ok(address@),
        Err(fault) => Err(fault),
    }
}

/// The lower-case hexadecimal digit for a value below sixteen.
pub open spec fn hex_digit_char(v: int) -> char {
    if v < 10 {
        ((('0' as u8) + v) as u8) as char
    } else {
        ((('a' as u8) + v - 10) as u8) as char
    }
}

/// The digits of `bytes`, two for each byte and the high one first.
pub open spec fn hex_digits(bytes: Seq<u8>) -> Seq<char> {
    Seq::new(
        2 * bytes.len(),
        |i: int|
            hex_digit_char(
                if i % 2 == 0 {
                    bytes[i / 2] as int / 16
                } else {
                    bytes[i / 2] as int % 16
                },
            ),
    )
}

/// The canonical text of `bytes`: `0x` and their lower-case digits.
pub open spec fn hex_text(bytes: Seq<u8>) -> Seq<char> {
    seq!['0', 'x'] + hex_digits(bytes)
}

/// The checksummed text of an address, in which the case of each letter
/// carries one bit of a digest of the lower-case digits.
pub uninterp spec fn checksum_text(bytes: Seq<u8>) -> Seq<char>;

/// The words in which the decoder describes a fault.
pub uninterp spec fn fault_text(fault: HexFault) -> Seq<char>;

/// The display of the `FromHexError` of const-hex, as alloy-primitives
/// offers it, that stands for `fault`.
#[verifier::external_body]
fn fault_to_string(fault: &HexFault) -> (text: String)
    ensures
        text@ == fault_text(*fault),
{
    match *fault {
        HexFault::InvalidHexCharacter { c, index } => {
            alloy::primitives::hex::FromHexError::InvalidHexCharacter { c, index }.to_string()
        },
        HexFault::OddLength => alloy::primitives::hex::FromHexError::OddLength.to_string(),
        HexFault::InvalidStringLength => {
            alloy::primitives::hex::FromHexError::InvalidStringLength.to_string()
        },
    }
}

impl HexFault {
    /// The fault in words.
    pub fn message(&self) -> (text: String)
        ensures
            text@ == fault_text(*self),
    {
        fault_to_string(self)
    }
}

/// `Address::from_str` of alloy-primitives, which decodes through const-hex.
///
/// The text is taken byte by byte. An odd number of bytes is refused first;
/// then a leading `0x` or `0X` is dropped and anything but forty bytes is
/// refused; then the first byte that is no hexadecimal digit is reported with
/// its index among the forty. Otherwise each pair of digits gives one byte.
#[verifier::external_body]
fn address_from_str(text: &str) -> (r: Result<Address, HexFault>)
    ensures
        outcome_view(r) == parse_hex_address(text.spec_bytes()),
{
    match text.parse::<alloy::primitives::Address>() {
        Ok(address) => Ok(Address { bytes: address.0.0 }),
        Err(alloy::primitives::hex::FromHexError::InvalidHexCharacter { c, index }) => Err(
            HexFault::InvalidHexCharacter { c, index },
        ),
        Err(alloy::primitives::hex::FromHexError::OddLength) => Err(HexFault::OddLength),
        Err(alloy::primitives::hex::FromHexError::InvalidStringLength) => Err(
            HexFault::InvalidStringLength,
        ),
    }
}

/// `hex::encode_prefixed` as alloy-primitives offers it: `0x`, then two
/// lower-case digits for each byte.
#[verifier::external_body]
fn address_to_hex(address: &Address) -> (text: String)
    ensures
        text@ == hex_text(address@),
{
    alloy::primitives::hex::encode_prefixed(address.bytes)
}

/// `Address::to_checksum` of alloy-primitives without a chain id.
#[verifier::external_body]
fn address_to_checksum(address: &Address) -> (text: String)
    ensures
        text@ == checksum_text(address@),
{
    alloy::primitives::Address::from(address.bytes).to_checksum(None)
}

/// The canonical text is ASCII: `0x` and twice as many digits as bytes.
pub proof fn lemma_hex_text_is_ascii(bytes: Seq<u8>)
    ensures
        hex_text(bytes).len() == 2 + 2 * bytes.len(),
        vstd::utf8::is_ascii_chars(hex_text(bytes)),
        forall|i: int|
            0 <= i < 2 * bytes.len() ==> is_hex_digit(#[trigger] hex_text(bytes)[2 + i] as u8),
{
    let text = hex_text(bytes);
    assert forall|i: int| 0 <= i < 2 * bytes.len() implies is_hex_digit(
        #[trigger] text[2 + i] as u8,
    ) && text[2 + i] <= '\u{7f}' by {
        assert(text[2 + i] == hex_digits(bytes)[i]);
    }
    assert forall|i: int| 0 <= i < text.len() implies '\0' <= #[trigger] text[i] <= '\u{7f}' by {
        if i >= 2 {
            assert(is_hex_digit(text[2 + (i - 2)] as u8));
        }
    }
}

/// Reading the canonical text of an address gives the address back.
pub proof fn lemma_parse_of_hex_text(bytes: Seq<u8>)
    requires
        bytes.len() == ADDRESS_BYTES,
    ensures
        parse_address(hex_text(bytes)) == Ok::<Seq<u8>, HexFault>(bytes),
{
    let text = hex_text(bytes);
    let input = encode_utf8(text);
    lemma_hex_text_is_ascii(bytes);
    vstd::utf8::is_ascii_chars_encode_utf8(text);
    assert(input[0] == text[0] as u8);
    assert(input[1] == text[1] as u8);
    let digits = strip_hex_prefix(input);
    assert(digits == input.skip(2));
    assert forall|i: int| 0 <= i < digits.len() implies is_hex_digit(#[trigger] digits[i]) by {
        assert(digits[i] == text[2 + i] as u8);
    }
    lemma_first_where_is(digits, |b: u8| !is_hex_digit(b), digits.len() as int);
    assert forall|i: int| 0 <= i < bytes.len() implies #[trigger] hex_decode(digits)[i]
        == bytes[i] by {
        assert(digits[2 * i] == text[2 + 2 * i] as u8);
        assert(digits[2 * i + 1] == text[2 + (2 * i + 1)] as u8);
        assert(text[2 + 2 * i] == hex_digits(bytes)[2 * i]);
        assert(text[2 + (2 * i + 1)] == hex_digits(bytes)[2 * i + 1]);
        assert((2 * i) / 2 == i && (2 * i) % 2 == 0);
        assert((2 * i + 1) / 2 == i && (2 * i + 1) % 2 == 1);
    }
    assert(hex_decode(digits) =~= bytes);
}

impl Address {
    /// Reads an address from its hexadecimal text.
    pub fn parse(text: &str) -> (r: Result<Address, HexFault>)
        ensures
            outcome_view(r) == parse_address(text@),
    {
        address_from_str(text)
    }

    /// The canonical lower-case text of the address.
    pub fn to_hex(&self) -> (text: String)
        ensures
            text@ == hex_text(self@),
    {
        address_to_hex(self)
    }

    /// The checksummed text of the address.
    pub fn to_checksum(&self) -> (text: String)
        ensures
            text@ == checksum_text(self@),
    {
        address_to_checksum(self)
    }
}

} // verus!
