//! One run: what is decided before the aggregated call is made, and what is
//! decided once it has come back. Making the call, reading the files and
//! writing the exports is left to the caller.

use crate::address::Address;
use crate::error::{StatsError, StatsFault};
use crate::export::{csv_text, table_cells, table_text};
use crate::query::{
    aggregate_request, build_calls, is_aggregate_of, is_allocation_call, outcome_view, Call,
};
use crate::stats::{
    addresses_of, bytes_of, collect_stats, parse_addresses, rows_of, stats_of, WalletRow,
    WalletStats,
};
use crate::text::{clean_lines, read_lines};
use vstd::prelude::*;

verus! {

/// The accounts of a run, the lookup for each of them, and the one call
/// that carries all the lookups.
pub struct BatchQuery {
    pub addresses: Vec<Address>,
    pub calls: Vec<Call>,
    pub request: Call,
}

impl BatchQuery {
    /// Call `i` is the allocation lookup for address `i`, there is no
    /// other call, and the request aggregates the calls in that order.
    pub open spec fn wf(&self) -> bool {
        &&& is_aggregate_of(self.request, self.calls@)
        &&& self.calls@.len() == self.addresses@.len()
        &&& forall|i: int|
            0 <= i < self.calls@.len() ==> is_allocation_call(
                #[trigger] self.calls@[i],
                self.addresses@[i],
            )
    }
}

/// The outcome of a planning with the addresses taken by their bytes.
pub open spec fn query_view(r: Result<BatchQuery, StatsError>) -> Result<
    Seq<Seq<u8>>,
    StatsFault,
> {
    match r {
        Ok(query) => Ok(bytes_of(query.addresses@)),
        Err(error) => Err(error@),
    }
}

/// Reads the address list from the text of its file and builds the batch for
/// it. A line that is no address ends the run here: there is then no batch
/// to submit.
pub fn plan_query(text: &str) -> (r: Result<BatchQuery, StatsError>)
    ensures
        query_view(r) == addresses_of(clean_lines(text@)),
        r matches Ok(query) ==> query.wf(),
{
    let lines = read_lines(text);
    match parse_addresses(&lines) {
        Ok(addresses) => {
            let calls = build_calls(&addresses);
            let request = aggregate_request(&calls);
            Ok(BatchQuery { addresses, calls, request })
        },
        Err(error) => Err(error),
    }
}

/// What a run hands out: its rows, the bytes of the CSV file and the text of
/// the console table.
pub struct Export {
    pub stats: Vec<WalletStats>,
    pub csv: Vec<u8>,
    pub table: String,
}

impl Export {
    /// The two renderings are those of the rows.
    pub open spec fn wf(&self) -> bool {
        &&& self.csv@ == csv_text(rows_of(self.stats@))
        &&& self.table@ == table_text(table_cells(rows_of(self.stats@)))
    }
}

/// The outcome of a run with each row taken as plain sequences.
pub open spec fn export_view(r: Result<Export, StatsError>) -> Result<Seq<WalletRow>, StatsFault> {
    match r {
        Ok(export) => Ok(rows_of(export.stats@)),
        Err(error) => Err(error@),
    }
}

/// What a whole run comes to: the rows for the addresses that the text of
/// the address file spells and the outcome of the aggregated call, or the
/// reason for which there are none.
pub open spec fn run_of(text: Seq<char>, outcome: Result<Seq<u8>, Seq<char>>) -> Result<
    Seq<WalletRow>,
    StatsFault,
> {
    match addresses_of(clean_lines(text)) {
        Ok(addresses) => stats_of(addresses, outcome),
        Err(fault) => Err(fault),
    }
}

/// The CSV file that a whole run writes, where it writes one.
pub open spec fn export_of(text: Seq<char>, outcome: Result<Seq<u8>, Seq<char>>) -> Result<
    Seq<u8>,
    StatsFault,
> {
    match run_of(text, outcome) {
        Ok(rows) => Ok(csv_text(rows)),
        Err(fault) => Err(fault),
    }
}

/// Turns the outcome of the aggregated call for `addresses` into what the
/// run exports: one row per address, in the order of the addresses, with
/// the CSV file and the table of those rows.
///
/// Where the call failed, or its answer does not hold one well-formed result
/// per address, there is no export at all: nothing is written in part.
pub fn parse_stats(addresses: &Vec<Address>, outcome: &Result<Vec<u8>, String>) -> (r: Result<
    Export,
    StatsError,
>)
    ensures
        export_view(r) == stats_of(bytes_of(addresses@), outcome_view(*outcome)),
        r matches Ok(export) ==> export.wf(),
{
    match collect_stats(addresses, outcome) {
        Ok(stats) => {
            let csv = WalletStats::export_stats_to_csv(&stats);
            let table = WalletStats::render_table(&stats);
            Ok(Export { stats, csv, table })
        },
        Err(error) => Err(error),
    }
}

} // verus!
