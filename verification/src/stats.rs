//! The addresses of a run and the rows that are made of them.

use crate::address::{parse_address, Address};
use crate::amount::{be_value, units_text, AllocationValue, DECIMALS};
use crate::error::{StatsError, StatsFault};
use crate::query::{decoded, get_stats, outcome_view, words_of};
use crate::scan::{first_where, lemma_first_where_is};
use vstd::prelude::*;

verus! {

/// Whether `line` is no address.
pub open spec fn is_invalid_line(line: Seq<char>) -> bool {
    parse_address(line) is Err
}

/// The index of the first line that is no address, or the number of lines
/// where all are.
pub open spec fn first_invalid_line(lines: Seq<Seq<char>>) -> int {
    first_where(lines, |line: Seq<char>| is_invalid_line(line))
}

/// The addresses that `lines` spell, one per line and in their order, or the
/// first line that spells none together with what is wrong with it.
pub open spec fn addresses_of(lines: Seq<Seq<char>>) -> Result<Seq<Seq<u8>>, StatsFault> {
    let k = first_invalid_line(lines);
    if k < lines.len() {
        Err(StatsFault::InvalidAddress { line: lines[k], fault: parse_address(lines[k])->Err_0 })
    } else {
        Ok(Seq::new(lines.len(), |i: int| parse_address(lines[i])->Ok_0))
    }
}

/// The bytes of `addresses`, in their order.
pub open spec fn bytes_of(addresses: Seq<Address>) -> Seq<Seq<u8>> {
    Seq::new(addresses.len(), |i: int| addresses[i]@)
}

/// The outcome of reading a list with each address taken by its bytes.
pub open spec fn addresses_view(r: Result<Vec<Address>, StatsError>) -> Result<
    Seq<Seq<u8>>,
    StatsFault,
> {
    match r {
        Ok(addresses) => Ok(bytes_of(addresses@)),
        Err(error) => Err(error@),
    }
}

/// Reads one address from each line. The first line that is no address ends
/// the reading: nothing is skipped, and no part of the list is returned.
pub fn parse_addresses(lines: &Vec<String>) -> (r: Result<Vec<Address>, StatsError>)
    ensures
        addresses_view(r) == addresses_of(lines.deep_view()),
{
    let ghost texts = lines.deep_view();
    let mut addresses: Vec<Address> = Vec::new();
    let mut i: usize = 0;
    while i < lines.len()
        invariant
            i <= lines@.len(),
            texts == lines.deep_view(),
            addresses@.len() == i,
            forall|j: int| 0 <= j < i ==> !is_invalid_line(#[trigger] texts[j]),
            forall|j: int|
                0 <= j < i ==> parse_address(texts[j]) == Ok::<Seq<u8>, crate::address::HexFault>(
                    (#[trigger] addresses@[j])@,
                ),
        decreases lines@.len() - i,
    {
        assert(texts[i as int] == lines@[i as int]@);
        match Address::parse(lines[i].as_str()) {
            Ok(address) => {
                addresses.push(address);
            },
            Err(fault) => {
                proof {
                    assert(is_invalid_line(texts[i as int]));
                    lemma_first_where_is(
                        texts,
                        |line: Seq<char>| is_invalid_line(line),
                        i as int,
                    );
                }
                return Err(StatsError::InvalidAddress { line: lines[i].clone(), fault });
            },
        }
        i += 1;
    }
    proof {
        lemma_first_where_is(texts, |line: Seq<char>| is_invalid_line(line), texts.len() as int);
        assert(bytes_of(addresses@) =~= Seq::new(
            texts.len(),
            |i: int| parse_address(texts[i])->Ok_0,
        ));
    }
    Ok(addresses)
}

/// One exported row: an account and its allocation as decimal text.
#[derive(Clone, Debug, PartialEq, Eq)]
pub struct WalletStats {
    pub address: Address,
    pub allocation: String,
}

/// A `WalletStats` as plain sequences.
pub struct WalletRow {
    pub address: Seq<u8>,
    pub allocation: Seq<char>,
}

impl View for WalletStats {
    type V = WalletRow;

    open spec fn view(&self) -> WalletRow {
        WalletRow { address: self.address@, allocation: self.allocation@ }
    }
}

/// The rows of `stats`, in their order.
pub open spec fn rows_of(stats: Seq<WalletStats>) -> Seq<WalletRow> {
    Seq::new(stats.len(), |i: int| stats[i]@)
}

/// The row of an account whose lookup returned `word`.
pub open spec fn row_of(address: Seq<u8>, word: Seq<u8>) -> WalletRow {
    WalletRow { address, allocation: units_text(be_value(word), DECIMALS as nat) }
}

/// Row `i` pairs address `i` with word `i`.
pub open spec fn paired(addresses: Seq<Seq<u8>>, words: Seq<Seq<u8>>) -> Seq<WalletRow> {
    Seq::new(addresses.len(), |i: int| row_of(addresses[i], words[i]))
}

/// What a run over `addresses` comes to once the aggregated call has come
/// to `outcome`: one row per address, in the order of the addresses, or the
/// reason for which there is no row at all.
pub open spec fn stats_of(
    addresses: Seq<Seq<u8>>,
    outcome: Result<Seq<u8>, Seq<char>>,
) -> Result<Seq<WalletRow>, StatsFault> {
    match decoded(addresses.len(), outcome) {
        Ok(words) => Ok(paired(addresses, words)),
        Err(fault) => Err(fault),
    }
}

/// The outcome of a run with each row taken as plain sequences.
pub open spec fn stats_view(r: Result<Vec<WalletStats>, StatsError>) -> Result<
    Seq<WalletRow>,
    StatsFault,
> {
    match r {
        Ok(stats) => Ok(rows_of(stats@)),
        Err(error) => Err(error@),
    }
}

/// Pairs each address with its allocation, by position.
pub fn pair_stats(addresses: &Vec<Address>, allocations: &Vec<AllocationValue>) -> (stats: Vec<
    WalletStats,
>)
    requires
        addresses@.len() == allocations@.len(),
    ensures
        rows_of(stats@) == paired(bytes_of(addresses@), words_of(allocations@)),
{
    let mut stats: Vec<WalletStats> = Vec::new();
    let mut i: usize = 0;
    while i < addresses.len()
        invariant
            i <= addresses@.len(),
            addresses@.len() == allocations@.len(),
            stats@.len() == i,
            forall|j: int|
                0 <= j < i ==> (#[trigger] stats@[j])@ == row_of(
                    addresses@[j]@,
                    allocations@[j].word@,
                ),
        decreases addresses@.len() - i,
    {
        let entry = WalletStats { address: addresses[i], allocation: allocations[i].format() };
        stats.push(entry);
        i += 1;
    }
    assert(rows_of(stats@) =~= paired(bytes_of(addresses@), words_of(allocations@)));
    stats
}

/// Turns the outcome of the aggregated call for `addresses` into the rows to
/// export: row `i` holds address `i` and the allocation that result `i`
/// spells. Where the call failed or its answer does not hold one well-formed
/// result per address, there are no rows.
pub fn collect_stats(addresses: &Vec<Address>, outcome: &Result<Vec<u8>, String>) -> (r: Result<
    Vec<WalletStats>,
    StatsError,
>)
    ensures
        stats_view(r) == stats_of(bytes_of(addresses@), outcome_view(*outcome)),
{
    match get_stats(addresses, outcome) {
        Ok(allocations) => {
            proof {
                let words = decoded(addresses@.len(), outcome_view(*outcome))->Ok_0;
                assert(words == words_of(allocations@));
                assert(words.len() == addresses@.len());
                assert(bytes_of(addresses@).len() == addresses@.len());
            }
            let stats = pair_stats(addresses, &allocations);
            Ok(stats)
        },
        Err(error) => Err(error),
    }
}

} // verus!
