//! What holds of every run, stated over the models that the contracts of the
//! crate use.

use crate::address::{hex_text, is_hex_digit, lemma_hex_text_is_ascii, parse_address, HexFault};
use crate::amount::{
    be_value, is_digit, lemma_units_text_chars, pow10, units_text, DECIMALS,
};
use crate::error::StatsFault;
use crate::export::{
    csv_field, csv_header, csv_record, csv_row, csv_rows, is_special, needs_quotes,
    ADDRESS_HEADER, ALLOCATION_HEADER, COMMA, LINE_FEED,
};
use crate::query::{
    aggregate_return_data, decoded, first_malformed, is_malformed, results_of,
};
use crate::run::{export_of, run_of};
use crate::scan::{lemma_first_where, lemma_first_where_is};
use crate::stats::{
    addresses_of, first_invalid_line, is_invalid_line, paired, row_of, stats_of, WalletRow,
};
use crate::text::{
    clean_lines, first_break, is_blank, is_line_feed, is_whitespace, lemma_trim_end_shape,
    lemma_trim_is_tight, lemma_trim_start_shape, trim, trim_start,
};
use vstd::prelude::*;
use vstd::utf8::{encode_utf8, is_ascii_chars, is_ascii_chars_encode_utf8};

verus! {

/// The bytes of a text of ASCII characters.
pub open spec fn ascii_bytes(text: Seq<char>) -> Seq<u8> {
    Seq::new(text.len(), |i: int| text[i] as u8)
}

/// The results of a batch give words exactly when there is one well-formed
/// result per call.
pub proof fn lemma_words_exist_iff(expected: nat, returned: Seq<Seq<u8>>)
    ensures
        results_of(expected, returned) is Ok <==> (returned.len() == expected && forall|i: int|
            0 <= i < returned.len() ==> !is_malformed(#[trigger] returned[i])),
{
    let p = |data: Seq<u8>| is_malformed(data);
    lemma_first_where(returned, p);
    if returned.len() == expected {
        if first_malformed(returned) < returned.len() {
            assert(is_malformed(returned[first_malformed(returned)]));
        } else {
            assert forall|i: int| 0 <= i < returned.len() implies !is_malformed(
                #[trigger] returned[i],
            ) by {
                assert(!p(returned[i]));
            }
        }
    }
}

/// A run gives rows exactly when the call came back with an answer that
/// holds one well-formed result per address.
pub proof fn lemma_rows_exist_iff(addresses: Seq<Seq<u8>>, outcome: Result<Seq<u8>, Seq<char>>)
    ensures
        stats_of(addresses, outcome) is Ok <==> (outcome matches Ok(answer)
            && aggregate_return_data(answer) matches Some(returned) && returned.len()
            == addresses.len() && forall|i: int|
            0 <= i < returned.len() ==> !is_malformed(#[trigger] returned[i])),
{
    if let Ok(answer) = outcome {
        if let Some(returned) = aggregate_return_data(answer) {
            lemma_words_exist_iff(addresses.len(), returned);
        }
    }
}

/// Where a run gives rows, there is one row per address, and row `i` holds
/// address `i` and the allocation that result `i` of the call spells.
pub proof fn lemma_rows_follow_addresses(
    addresses: Seq<Seq<u8>>,
    outcome: Result<Seq<u8>, Seq<char>>,
)
    ensures
        stats_of(addresses, outcome) matches Ok(rows) ==> {
            &&& outcome matches Ok(answer)
            &&& aggregate_return_data(answer) matches Some(returned)
            &&& rows.len() == addresses.len()
            &&& forall|i: int|
                0 <= i < rows.len() ==> (#[trigger] rows[i]).address == addresses[i]
                    && rows[i].allocation == units_text(
                    be_value(returned[i].take(32)),
                    DECIMALS as nat,
                )
        },
{
    if let Ok(rows) = stats_of(addresses, outcome) {
        let returned = aggregate_return_data(outcome->Ok_0)->Some_0;
        let words = decoded(addresses.len(), outcome)->Ok_0;
        lemma_rows_exist_iff(addresses, outcome);
        assert forall|i: int| 0 <= i < rows.len() implies (#[trigger] rows[i]).address
            == addresses[i] && rows[i].allocation == units_text(
            be_value(returned[i].take(32)),
            DECIMALS as nat,
        ) by {
            assert(rows[i] == row_of(addresses[i], words[i]));
            assert(!is_malformed(returned[i]));
        }
    }
}

/// Where every line of the address file is an address, the rows of a run
/// stand in the order of the lines: row `i` holds the address of line `i`.
pub proof fn lemma_rows_follow_lines(text: Seq<char>, outcome: Result<Seq<u8>, Seq<char>>)
    ensures
        run_of(text, outcome) matches Ok(rows) ==> {
            &&& rows.len() == clean_lines(text).len()
            &&& forall|i: int|
                0 <= i < rows.len() ==> parse_address(clean_lines(text)[i]) == Ok::<
                    Seq<u8>,
                    HexFault,
                >((#[trigger] rows[i]).address)
        },
{
    let lines = clean_lines(text);
    if let Ok(rows) = run_of(text, outcome) {
        let addresses = addresses_of(lines)->Ok_0;
        lemma_rows_follow_addresses(addresses, outcome);
        let p = |line: Seq<char>| is_invalid_line(line);
        lemma_first_where(lines, p);
        assert forall|i: int| 0 <= i < rows.len() implies parse_address(lines[i]) == Ok::<
            Seq<u8>,
            HexFault,
        >((#[trigger] rows[i]).address) by {
            assert(!p(lines[i]));
            assert(rows[i].address == addresses[i]);
        }
    }
}

/// One line that is no address voids the list: no address is read from it,
/// so there is no batch to submit, and the run gives no rows whatever the
/// call would have come to.
pub proof fn lemma_invalid_line_voids_run(
    text: Seq<char>,
    k: int,
    outcome: Result<Seq<u8>, Seq<char>>,
)
    requires
        0 <= k < clean_lines(text).len(),
        parse_address(clean_lines(text)[k]) is Err,
    ensures
        addresses_of(clean_lines(text)) matches Err(StatsFault::InvalidAddress { line, fault })
            && parse_address(line) == Err::<Seq<u8>, HexFault>(fault),
        run_of(text, outcome) == Err::<Seq<WalletRow>, StatsFault>(
            addresses_of(clean_lines(text))->Err_0,
        ),
        export_of(text, outcome) is Err,
{
    let lines = clean_lines(text);
    let p = |line: Seq<char>| is_invalid_line(line);
    lemma_first_where(lines, p);
    let f = first_invalid_line(lines);
    if f >= lines.len() {
        assert(!p(lines[k]));
    }
    assert(p(lines[f]));
}

/// A text of whitespace alone has no lines.
pub proof fn lemma_blank_text_has_no_lines(text: Seq<char>)
    requires
        is_blank(text),
    ensures
        clean_lines(text) == Seq::<Seq<char>>::empty(),
    decreases text.len(),
{
    lemma_first_where(text, |c: char| is_line_feed(c));
    let k = first_break(text);
    let head = text.take(k);
    assert(is_blank(head)) by {
        assert forall|i: int| 0 <= i < head.len() implies is_whitespace(
            #[trigger] head[i],
        ) by {
            assert(head[i] == text[i]);
        }
    }
    lemma_trim_is_tight(head);
    if k < text.len() {
        let rest = text.skip(k + 1);
        assert(is_blank(rest)) by {
            assert forall|i: int| 0 <= i < rest.len() implies is_whitespace(
                #[trigger] rest[i],
            ) by {
                assert(rest[i] == text[i + k + 1]);
            }
        }
        lemma_blank_text_has_no_lines(rest);
    }
}

/// A run over an address file of blank lines, whose call answers with no
/// result, completes with no rows and exports the header record alone.
pub proof fn lemma_blank_file_exports_header(text: Seq<char>, answer: Seq<u8>)
    requires
        is_blank(text),
        aggregate_return_data(answer) == Some(Seq::<Seq<u8>>::empty()),
    ensures
        run_of(text, Ok(answer)) == Ok::<Seq<WalletRow>, StatsFault>(Seq::empty()),
        export_of(text, Ok(answer)) == Ok::<Seq<u8>, StatsFault>(csv_header()),
{
    lemma_blank_text_has_no_lines(text);
    let lines = Seq::<Seq<char>>::empty();
    lemma_first_where_is(lines, |line: Seq<char>| is_invalid_line(line), 0);
    let addresses = addresses_of(lines)->Ok_0;
    assert(addresses =~= Seq::<Seq<u8>>::empty());
    let returned = Seq::<Seq<u8>>::empty();
    lemma_first_where_is(returned, |data: Seq<u8>| is_malformed(data), 0);
    let words = results_of(0, returned)->Ok_0;
    assert(words =~= Seq::<Seq<u8>>::empty());
    assert(paired(addresses, words) =~= Seq::<WalletRow>::empty());
    assert(csv_header() + csv_rows(Seq::<WalletRow>::empty()) =~= csv_header());
}

/// A failed call gives no rows, whatever the addresses, and a run whose call
/// failed writes no file.
pub proof fn lemma_failed_call_gives_no_export(
    addresses: Seq<Seq<u8>>,
    text: Seq<char>,
    cause: Seq<char>,
)
    ensures
        stats_of(addresses, Err(cause)) == Err::<Seq<WalletRow>, StatsFault>(
            StatsFault::Transport { cause },
        ),
        run_of(text, Err(cause)) is Err,
        export_of(text, Err(cause)) is Err,
{
}

/// Every line that is read is trimmed and not blank, and holds no line feed.
pub proof fn lemma_clean_lines_are_tight(text: Seq<char>)
    ensures
        forall|i: int|
            0 <= i < clean_lines(text).len() ==> {
                let line = #[trigger] clean_lines(text)[i];
                &&& line.len() > 0
                &&& !is_whitespace(line.first())
                &&& !is_whitespace(line.last())
                &&& forall|j: int| 0 <= j < line.len() ==> line[j] != '\n'
            },
    decreases text.len(),
{
    lemma_first_where(text, |c: char| is_line_feed(c));
    let k = first_break(text);
    let raw = text.take(k);
    let head = trim(raw);
    lemma_trim_is_tight(raw);
    lemma_trim_start_shape(raw);
    lemma_trim_end_shape(trim_start(raw));
    assert forall|j: int| 0 <= j < head.len() implies head[j] != '\n' by {
        let start = raw.len() - trim_start(raw).len();
        assert(head[j] == trim_start(raw)[j]);
        assert(trim_start(raw)[j] == raw[start + j]);
        assert(raw[start + j] == text[start + j]);
        assert(!is_line_feed(text[start + j]));
    }
    let here = if head.len() == 0 {
        Seq::<Seq<char>>::empty()
    } else {
        seq![head]
    };
    if 0 <= k < text.len() {
        let rest = clean_lines(text.skip(k + 1));
        lemma_clean_lines_are_tight(text.skip(k + 1));
        assert forall|i: int| 0 <= i < clean_lines(text).len() implies {
            let line = #[trigger] clean_lines(text)[i];
            &&& line.len() > 0
            &&& !is_whitespace(line.first())
            &&& !is_whitespace(line.last())
            &&& forall|j: int| 0 <= j < line.len() ==> line[j] != '\n'
        } by {
            if i >= here.len() {
                assert(clean_lines(text)[i] == rest[i - here.len()]);
            }
        }
    }
}

/// Two runs on the same address file and the same outcome of the call come
/// to the same rows and write the same bytes.
pub proof fn lemma_same_inputs_same_export(
    text_a: Seq<char>,
    outcome_a: Result<Seq<u8>, Seq<char>>,
    text_b: Seq<char>,
    outcome_b: Result<Seq<u8>, Seq<char>>,
)
    requires
        text_a == text_b,
        outcome_a == outcome_b,
    ensures
        run_of(text_a, outcome_a) == run_of(text_b, outcome_b),
        export_of(text_a, outcome_a) == export_of(text_b, outcome_b),
{
}

/// A field of ASCII characters none of which is special stands in a record
/// as its own bytes.
pub proof fn lemma_plain_field(text: Seq<char>)
    requires
        is_ascii_chars(text),
        forall|i: int| 0 <= i < text.len() ==> !is_special(#[trigger] text[i] as u8),
    ensures
        csv_field(encode_utf8(text)) == ascii_bytes(text),
{
    is_ascii_chars_encode_utf8(text);
    let field = encode_utf8(text);
    assert(field =~= ascii_bytes(text));
    assert(!needs_quotes(field)) by {
        if needs_quotes(field) {
            let i = choose|i: int| 0 <= i < field.len() && is_special(#[trigger] field[i]);
            assert(field[i] == text[i] as u8);
        }
    }
}

/// The record of a row of a run is never quoted: it is the canonical text of
/// the address, a comma, the decimal text of the allocation and a line feed.
pub proof fn lemma_run_row_is_plain(address: Seq<u8>, word: Seq<u8>)
    ensures
        csv_row(row_of(address, word)) == ascii_bytes(hex_text(address)) + seq![COMMA]
            + ascii_bytes(units_text(be_value(word), DECIMALS as nat)) + seq![LINE_FEED],
{
    let hex = hex_text(address);
    lemma_hex_text_is_ascii(address);
    assert forall|i: int| 0 <= i < hex.len() implies !is_special(#[trigger] hex[i] as u8) by {
        if i >= 2 {
            assert(is_hex_digit(hex[2 + (i - 2)] as u8));
        }
    }
    lemma_plain_field(hex);
    let amount = units_text(be_value(word), DECIMALS as nat);
    lemma_units_text_chars(be_value(word), DECIMALS as nat);
    assert forall|i: int| 0 <= i < amount.len() implies '\0' <= #[trigger] amount[i]
        <= '\u{7f}' && !is_special(amount[i] as u8) by {
        let c = amount[i];
        assert(is_digit(c) || c == '.');
    }
    lemma_plain_field(amount);
}

/// One whole token, ten to the eighteenth of the smallest unit, is rendered
/// as a one, a point and eighteen zeros.
pub proof fn lemma_one_whole_token()
    ensures
        units_text(1_000_000_000_000_000_000, DECIMALS as nat) == "1.000000000000000000"@,
{
    reveal_strlit("1.000000000000000000");
    reveal_with_fuel(pow10, 19);
    assert(pow10(18) == 1_000_000_000_000_000_000);
    assert(units_text(1_000_000_000_000_000_000, 18) =~= "1.000000000000000000"@);
}

/// The header record is the line `Address,Allocation`.
pub proof fn lemma_header_record()
    ensures
        csv_header() == ascii_bytes("Address,Allocation\n"@),
{
    reveal_strlit("Address");
    reveal_strlit("Allocation");
    reveal_strlit("Address,Allocation\n");
    let first = ADDRESS_HEADER@;
    let second = ALLOCATION_HEADER@;
    assert(first =~= seq!['A', 'd', 'd', 'r', 'e', 's', 's']);
    assert(second =~= seq!['A', 'l', 'l', 'o', 'c', 'a', 't', 'i', 'o', 'n']);
    lemma_plain_field(first);
    lemma_plain_field(second);
    assert(csv_record(encode_utf8(first), encode_utf8(second)) =~= ascii_bytes(
        "Address,Allocation\n"@,
    ));
}

} // verus!
