//! Allocation values: unsigned 256-bit integers as the contract returns them,
//! and their exact rendering as decimal text.

use vstd::prelude::*;

verus! {

/// The number of bytes in a word of contract return data.
pub const WORD_BYTES: usize = 32;

/// The number of implied fractional digits of an allocation.
pub const DECIMALS: u8 = 18;

/// The largest number of fractional digits that a 256-bit value can be
/// rendered with.
pub const MAX_DECIMALS: u8 = 77;

/// A raw on-chain quantity: one word, the most significant byte first.
#[derive(Clone, Copy, Debug, PartialEq, Eq, Hash)]
pub struct AllocationValue {
    pub word: [u8; 32],
}

/// The number that `bytes` spell, the most significant byte first.
pub open spec fn be_value(bytes: Seq<u8>) -> nat
    decreases bytes.len(),
{
    if bytes.len() == 0 {
        0
    } else {
        be_value(bytes.drop_last()) * 256 + bytes.last() as nat
    }
}

impl View for AllocationValue {
    type V = nat;

    open spec fn view(&self) -> nat {
        be_value(self.word@)
    }
}

/// Ten to the power of `n`.
pub open spec fn pow10(n: nat) -> nat
    decreases n,
{
    if n == 0 {
        1
    } else {
        10 * pow10((n - 1) as nat)
    }
}

/// The character of a decimal digit.
pub open spec fn digit_char(d: nat) -> char {
    ((('0' as u8) + d) as u8) as char
}

/// The decimal digits of `n`, without leading zeros (`0` for zero).
pub open spec fn decimal_text(n: nat) -> Seq<char>
    decreases n,
{
    if n < 10 {
        seq![digit_char(n)]
    } else {
        decimal_text(n / 10).push(digit_char(n % 10))
    }
}

/// `text` with as many zeros in front as bring it to `width` characters.
pub open spec fn zero_padded(text: Seq<char>, width: nat) -> Seq<char> {
    if text.len() < width {
        Seq::new((width - text.len()) as nat, |i: int| '0') + text
    } else {
        text
    }
}

/// `value` scaled down by ten to the `units`: the whole part, a point, and
/// the remainder in at least `units` digits. Nothing is rounded.
pub open spec fn units_text(value: nat, units: nat) -> Seq<char> {
    decimal_text(value / pow10(units)) + seq!['.'] + zero_padded(
        decimal_text(value % pow10(units)),
        units,
    )
}

/// The first word of `data`, where it holds one.
pub open spec fn first_word(data: Seq<u8>) -> Option<Seq<u8>> {
    if data.len() >= WORD_BYTES {
        Some(data.take(WORD_BYTES as int))
    } else {
        None
    }
}

/// Whether `c` is a decimal digit.
pub open spec fn is_digit(c: char) -> bool {
    '0' <= c <= '9'
}

/// Decimal text is never empty and holds digits only.
pub proof fn lemma_decimal_text_digits(n: nat)
    ensures
        decimal_text(n).len() >= 1,
        forall|i: int| 0 <= i < decimal_text(n).len() ==> is_digit(#[trigger] decimal_text(n)[i]),
    decreases n,
{
    if n >= 10 {
        lemma_decimal_text_digits(n / 10);
    }
}

/// Scaled text holds digits and one point, with at least one digit before
/// the point and at least `units` after it.
pub proof fn lemma_units_text_chars(value: nat, units: nat)
    ensures
        units_text(value, units).len() >= 2 + units,
        forall|i: int|
            0 <= i < units_text(value, units).len() ==> {
                let c = #[trigger] units_text(value, units)[i];
                is_digit(c) || c == '.'
            },
{
    let whole = decimal_text(value / pow10(units));
    let part = decimal_text(value % pow10(units));
    lemma_decimal_text_digits(value / pow10(units));
    lemma_decimal_text_digits(value % pow10(units));
    let padded = zero_padded(part, units);
    assert forall|i: int| 0 <= i < padded.len() implies is_digit(#[trigger] padded[i]) by {
        if part.len() < units {
            let fill = (units - part.len()) as int;
            if i >= fill {
                assert(padded[i] == part[i - fill]);
            }
        }
    }
    let text = units_text(value, units);
    assert forall|i: int| 0 <= i < text.len() implies {
        let c = #[trigger] text[i];
        is_digit(c) || c == '.'
    } by {
        if i < whole.len() {
            assert(text[i] == whole[i]);
        } else if i > whole.len() {
            assert(text[i] == padded[i - whole.len() - 1]);
        }
    }
}

/// The decimal digits of `n`.
pub fn decimal_string(n: usize) -> (text: String)
    ensures
        text@ == decimal_text(n as nat),
    decreases n,
{
    let mut text = if n < 10 {
        String::new()
    } else {
        decimal_string(n / 10)
    };
    let digit: u8 = (n % 10) as u8;
    text.push((48u8 + digit) as char);
    assert(text@ =~= decimal_text(n as nat));
    text
}

/// `utils::format_units` of alloy-primitives on an unsigned 256-bit amount.
///
/// Up to seventy-seven units it returns the quotient by ten to the `units`
/// in decimal, a point, and the remainder in decimal, filled with zeros on the
/// left to `units` characters. Beyond that it returns an error.
#[verifier::external_body]
fn format_units(value: &AllocationValue, units: u8) -> (text: Option<String>)
    ensures
        units <= MAX_DECIMALS ==> text.is_some() && text.unwrap()@ == units_text(
            value@,
            units as nat,
        ),
        units > MAX_DECIMALS ==> text.is_none(),
{
    let amount = alloy::primitives::U256::from_be_bytes(value.word);
    alloy::primitives::utils::format_units(amount, units).ok()
}

impl AllocationValue {
    /// The value that a word spells.
    pub fn from_word(word: [u8; 32]) -> (value: AllocationValue)
        ensures
            value.word == word,
    {
        AllocationValue { word }
    }

    /// Decodes the return data of a call that returns one unsigned 256-bit
    /// integer: its first word. Bytes after that word are not read.
    pub fn decode(data: &[u8]) -> (r: Option<AllocationValue>)
        ensures
            r.is_some() == first_word(data@).is_some(),
            r.is_some() ==> r.unwrap().word@ == first_word(data@).unwrap(),
    {
        if data.len() < WORD_BYTES {
            return None;
        }
        let mut word = [0u8; 32];
        let mut i: usize = 0;
        while i < WORD_BYTES
            invariant
                i <= WORD_BYTES <= data.len(),
                forall|j: int| 0 <= j < i ==> word@[j] == data@[j],
            decreases WORD_BYTES - i,
        {
            word[i] = data[i];
            i += 1;
        }
        assert(word@ =~= data@.take(WORD_BYTES as int));
        Some(AllocationValue { word })
    }

    /// The value as decimal text with `units` fractional digits, where a
    /// 256-bit value can have that many.
    pub fn format_with(&self, units: u8) -> (text: Option<String>)
        ensures
            units <= MAX_DECIMALS ==> text.is_some() && text.unwrap()@ == units_text(
                self@,
                units as nat,
            ),
            units > MAX_DECIMALS ==> text.is_none(),
    {
        format_units(self, units)
    }

    /// The allocation as decimal text with its eighteen fractional digits.
    pub fn format(&self) -> (text: String)
        ensures
            text@ == units_text(self@, DECIMALS as nat),
    {
        format_units(self, DECIMALS).unwrap()
    }
}

} // verus!
