//! Batched allocation lookups for a list of accounts, and the export of the
//! answers as CSV and as a console table.
//!
//! The crate holds the decisions of a run and leaves every effect to its
//! caller: it turns the text of an address file into a batch of read-only
//! contract calls, turns the raw answer of the aggregated call into one
//! formatted allocation per account, and renders both exports.

pub mod address;
pub mod amount;
pub mod config;
pub mod error;
pub mod export;
pub mod laws;

pub mod query;
pub mod run;
pub mod scan;
pub mod stats;
pub mod text;

pub use address::{Address, HexFault};
pub use amount::AllocationValue;
pub use config::Config;
pub use error::StatsError;
pub use query::{aggregate_request, build_calls, get_stats, read_results, Call};
pub use run::{parse_stats, plan_query, BatchQuery, Export};
pub use stats::{collect_stats, pair_stats, parse_addresses, WalletStats};
pub use text::read_lines;
