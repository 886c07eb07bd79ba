//! The two exports of a run: the CSV file, as its bytes, and the console
//! table, as its text.

use crate::address::hex_text;
use crate::stats::{rows_of, WalletRow, WalletStats};
use vstd::prelude::*;
use vstd::string::StringSliceAdditionalSpecFns;
use vstd::utf8::encode_utf8;

verus! {

/// The header of the first column.
pub const ADDRESS_HEADER: &'static str = "Address";

/// The header of the second column.
pub const ALLOCATION_HEADER: &'static str = "Allocation";

/// The byte between two fields of a record.
pub const COMMA: u8 = 0x2c;

/// The byte around a quoted field.
pub const QUOTE: u8 = 0x22;

/// The byte that ends a record.
pub const LINE_FEED: u8 = 0x0a;

/// The byte that a reader may take for the end of a record.
pub const CARRIAGE_RETURN: u8 = 0x0d;

/// Whether a field that holds `b` has to be quoted.
pub open spec fn is_special(b: u8) -> bool {
    b == COMMA || b == QUOTE || b == LINE_FEED || b == CARRIAGE_RETURN
}

/// Whether `field` has to be quoted.
pub open spec fn needs_quotes(field: Seq<u8>) -> bool {
    exists|i: int| 0 <= i < field.len() && is_special(#[trigger] field[i])
}

/// `field` with each quote written twice.
pub open spec fn doubled_quotes(field: Seq<u8>) -> Seq<u8>
    decreases field.len(),
{
    if field.len() == 0 {
        Seq::empty()
    } else if field.last() == QUOTE {
        doubled_quotes(field.drop_last()) + seq![QUOTE, QUOTE]
    } else {
        doubled_quotes(field.drop_last()).push(field.last())
    }
}

/// A field as it stands in a record: as it is, or between quotes where it
/// holds a special byte.
pub open spec fn csv_field(field: Seq<u8>) -> Seq<u8> {
    if needs_quotes(field) {
        seq![QUOTE] + doubled_quotes(field) + seq![QUOTE]
    } else {
        field
    }
}

/// A record of two fields.
pub open spec fn csv_record(first: Seq<u8>, second: Seq<u8>) -> Seq<u8> {
    csv_field(first) + seq![COMMA] + csv_field(second) + seq![LINE_FEED]
}

/// The header record.
pub open spec fn csv_header() -> Seq<u8> {
    csv_record(encode_utf8(ADDRESS_HEADER@), encode_utf8(ALLOCATION_HEADER@))
}

/// The record of one row: the address in its canonical lower-case text, and
/// the allocation.
pub open spec fn csv_row(row: WalletRow) -> Seq<u8> {
    csv_record(encode_utf8(hex_text(row.address)), encode_utf8(row.allocation))
}

/// The records of `rows`, one after the other.
pub open spec fn csv_rows(rows: Seq<WalletRow>) -> Seq<u8>
    decreases rows.len(),
{
    if rows.len() == 0 {
        Seq::empty()
    } else {
        csv_rows(rows.drop_last()) + csv_row(rows.last())
    }
}

/// The whole file: the header record, then one record per row.
pub open spec fn csv_text(rows: Seq<WalletRow>) -> Seq<u8> {
    csv_header() + csv_rows(rows)
}

/// A CSV writer of the csv crate over a buffer in memory, with the crate's
/// default settings.
#[verifier::external_body]
pub struct CsvSink {
    writer: csv::Writer<Vec<u8>>,
}

/// The bytes that a sink has been given so far, as they will stand in its
/// buffer once it is closed.
pub uninterp spec fn csv_written(sink: CsvSink) -> Seq<u8>;

/// `Writer::from_writer` of csv on an empty buffer: nothing is written yet.
#[verifier::external_body]
fn csv_sink() -> (sink: CsvSink)
    ensures
        csv_written(sink) == Seq::<u8>::empty(),
{
    CsvSink { writer: csv::Writer::from_writer(Vec::new()) }
}

/// `Writer::write_record` of csv with two fields.
///
/// A field that holds a comma, a quote, a line feed or a carriage return is
/// written between quotes with its quotes doubled, any other as it is; a
/// comma stands between the fields and a line feed ends the record. Writing
/// to memory does not fail, and every record of a sink has two fields, so
/// the call succeeds.
#[verifier::external_body]
fn csv_write_record(sink: &mut CsvSink, first: &str, second: &str) -> (done: bool)
    ensures
        done,
        csv_written(*final(sink)) == csv_written(*old(sink)) + csv_record(
            first.spec_bytes(),
            second.spec_bytes(),
        ),
{
    sink.writer.write_record([first, second]).is_ok()
}

/// `Writer::into_inner` of csv: the buffer with all that was written.
#[verifier::external_body]
fn csv_into_bytes(sink: CsvSink) -> (bytes: Vec<u8>)
    ensures
        bytes@ == csv_written(sink),
{
    sink.writer.into_inner().unwrap_or_default()
}

/// The text in which the tabled crate draws a table of the given rows of
/// cells, in its default style.
pub uninterp spec fn table_text(rows: Seq<Seq<Seq<char>>>) -> Seq<char>;

/// The display of the `Table` that a `Builder` of tabled builds from the
/// given rows of cells.
#[verifier::external_body]
fn draw_table(rows: &Vec<Vec<String>>) -> (text: String)
    ensures
        text@ == table_text(rows.deep_view()),
{
    tabled::builder::Builder::from_iter(rows.clone()).build().to_string()
}

/// The cells of the table: the header row, then the checksummed address and
/// the allocation of each row.
pub open spec fn table_cells(rows: Seq<WalletRow>) -> Seq<Seq<Seq<char>>> {
    Seq::new(
        rows.len() + 1,
        |i: int|
            if i == 0 {
                seq![ADDRESS_HEADER@, ALLOCATION_HEADER@]
            } else {
                seq![crate::address::checksum_text(rows[i - 1].address), rows[i - 1].allocation]
            },
    )
}

impl WalletStats {
    /// The bytes of the CSV file for `entries`: the header record, then one
    /// record per entry in the order of the entries.
    pub fn export_stats_to_csv(entries: &Vec<WalletStats>) -> (csv: Vec<u8>)
        ensures
            csv@ == csv_text(rows_of(entries@)),
    {
        let mut sink = csv_sink();
        csv_write_record(&mut sink, ADDRESS_HEADER, ALLOCATION_HEADER);
        let ghost rows = rows_of(entries@);
        let mut i: usize = 0;
        while i < entries.len()
            invariant
                i <= entries@.len(),
                rows == rows_of(entries@),
                csv_written(sink) == csv_header() + csv_rows(rows.take(i as int)),
            decreases entries@.len() - i,
        {
            let address = entries[i].address.to_hex();
            csv_write_record(&mut sink, address.as_str(), entries[i].allocation.as_str());
            proof {
                let next = rows.take(i + 1);
                assert(next.drop_last() =~= rows.take(i as int));
                assert(next.last() == entries@[i as int]@);
            }
            i += 1;
        }
        assert(rows.take(i as int) =~= rows);
        csv_into_bytes(sink)
    }

    /// The console table for `entries`: a header row, then one row per entry
    /// in the order of the entries.
    pub fn render_table(entries: &Vec<WalletStats>) -> (table: String)
        ensures
            table@ == table_text(table_cells(rows_of(entries@))),
    {
        let ghost rows = rows_of(entries@);
        let ghost wanted = table_cells(rows);
        let mut cells: Vec<Vec<String>> = Vec::new();
        let mut header: Vec<String> = Vec::new();
        header.push(ADDRESS_HEADER.to_owned());
        header.push(ALLOCATION_HEADER.to_owned());
        assert(header.deep_view() =~= wanted[0]);
        cells.push(header);
        let mut i: usize = 0;
        while i < entries.len()
            invariant
                i <= entries@.len(),
                rows == rows_of(entries@),
                wanted == table_cells(rows),
                cells@.len() == i + 1,
                forall|j: int| 0 <= j <= i ==> (#[trigger] cells@[j]).deep_view() == wanted[j],
            decreases entries@.len() - i,
        {
            let mut row: Vec<String> = Vec::new();
            row.push(entries[i].address.to_checksum());
            row.push(entries[i].allocation.clone());
            assert(row.deep_view() =~= wanted[i + 1]);
            cells.push(row);
            i += 1;
        }
        assert(cells.deep_view() =~= wanted);
        draw_table(&cells)
    }
}

} // verus!
