use alloy::primitives::{Bytes, U256};
use alloy::providers::bindings::IMulticall3;
use alloy::sol_types::SolCall;
use wallet_stats::{parse_stats, plan_query, Address, WalletStats};

const VITALIK: [u8; 20] = [
    0xd8, 0xda, 0x6b, 0xf2, 0x69, 0x64, 0xaf, 0x9d, 0x7e, 0xed, 0x9e, 0x03, 0xe5, 0x34, 0x15, 0xd3,
    0x7a, 0xa9, 0x60, 0x45,
];

const CLAIM: [u8; 20] = [
    0x00, 0x00, 0x00, 0x00, 0x02, 0xba, 0x96, 0xc6, 0x9b, 0x95, 0xe3, 0x2c, 0xaa, 0xb8, 0xfc, 0x38,
    0xba, 0xb8, 0xb3, 0xf8,
];

fn word(v: u128) -> Vec<u8> {
    let mut data = vec![0u8; 32];
    data[16..].copy_from_slice(&v.to_be_bytes());
    data
}

fn answer(results: Vec<Vec<u8>>) -> Vec<u8> {
    IMulticall3::aggregateCall::abi_encode_returns(&IMulticall3::aggregateReturn {
        blockNumber: U256::from(19_000_000u64),
        returnData: results.into_iter().map(Bytes::from).collect(),
    })
}

fn stat(bytes: [u8; 20], allocation: &str) -> WalletStats {
    WalletStats { address: Address { bytes }, allocation: allocation.to_string() }
}

fn text_of(csv: Vec<u8>) -> String {
    String::from_utf8(csv).unwrap()
}

#[test]
fn csv_has_header_and_one_record_per_row() {
    let stats =
        vec![stat(VITALIK, "1.000000000000000000"), stat(CLAIM, "0.000000000000000000")];
    assert_eq!(
        text_of(WalletStats::export_stats_to_csv(&stats)),
        "Address,Allocation\n\
         0xd8da6bf26964af9d7eed9e03e53415d37aa96045,1.000000000000000000\n\
         0x0000000002ba96c69b95e32caab8fc38bab8b3f8,0.000000000000000000\n"
    );
}

#[test]
fn csv_of_no_row_is_the_header() {
    assert_eq!(text_of(WalletStats::export_stats_to_csv(&Vec::new())), "Address,Allocation\n");
}

#[test]
fn csv_of_a_blank_address_file_is_the_header() {
    let query = plan_query("\n   \n\t\n").unwrap();
    let export = parse_stats(&query.addresses, &Ok(answer(Vec::new()))).unwrap();
    assert!(export.stats.is_empty());
    assert_eq!(text_of(export.csv), "Address,Allocation\n");
}

#[test]
fn csv_quotes_a_field_with_special_bytes() {
    let stats = vec![
        stat(CLAIM, "1,5"),
        stat(CLAIM, "say \"one\""),
        stat(CLAIM, "two\nlines"),
        stat(CLAIM, "back\rhome"),
        stat(CLAIM, ""),
        stat(CLAIM, "plain text; no quotes"),
    ];
    assert_eq!(
        text_of(WalletStats::export_stats_to_csv(&stats)),
        "Address,Allocation\n\
         0x0000000002ba96c69b95e32caab8fc38bab8b3f8,\"1,5\"\n\
         0x0000000002ba96c69b95e32caab8fc38bab8b3f8,\"say \"\"one\"\"\"\n\
         0x0000000002ba96c69b95e32caab8fc38bab8b3f8,\"two\nlines\"\n\
         0x0000000002ba96c69b95e32caab8fc38bab8b3f8,\"back\rhome\"\n\
         0x0000000002ba96c69b95e32caab8fc38bab8b3f8,\n\
         0x0000000002ba96c69b95e32caab8fc38bab8b3f8,plain text; no quotes\n"
    );
}

#[test]
fn csv_of_many_rows_keeps_them_all() {
    let stats: Vec<WalletStats> =
        (0..2000).map(|i| stat([(i % 251) as u8; 20], "12.000000000000000000")).collect();
    let text = text_of(WalletStats::export_stats_to_csv(&stats));
    let lines: Vec<&str> = text.lines().collect();
    assert_eq!(lines.len(), 2001);
    assert_eq!(lines[0], "Address,Allocation");
    for (line, stat) in lines[1..].iter().zip(&stats) {
        assert_eq!(*line, format!("{},12.000000000000000000", stat.address.to_hex()));
    }
}

#[test]
fn same_inputs_give_the_same_csv() {
    let text = "0xd8dA6BF26964aF9D7eEd9e03E53415D37aA96045\n0x0000000002ba96C69b95E32CAAB8fc38bAB8B3F8\n";
    let outcome = Ok(answer(vec![word(123_456_789_000_000_000_000), word(42)]));
    let run = || {
        let query = plan_query(text).unwrap();
        let export = parse_stats(&query.addresses, &outcome).unwrap();
        (export.csv, export.table)
    };
    let first = run();
    let second = run();
    assert_eq!(first, second);
    assert_eq!(
        text_of(first.0),
        "Address,Allocation\n\
         0xd8da6bf26964af9d7eed9e03e53415d37aa96045,123.456789000000000000\n\
         0x0000000002ba96c69b95e32caab8fc38bab8b3f8,0.000000000000000042\n"
    );
}

#[test]
fn table_shows_checksummed_addresses() {
    let stats = vec![stat(VITALIK, "1.000000000000000000"), stat(CLAIM, "0.5")];
    assert_eq!(
        WalletStats::render_table(&stats),
        "+--------------------------------------------+----------------------+\n\
         | Address                                    | Allocation           |\n\
         +--------------------------------------------+----------------------+\n\
         | 0xd8dA6BF26964aF9D7eEd9e03E53415D37aA96045 | 1.000000000000000000 |\n\
         +--------------------------------------------+----------------------+\n\
         | 0x0000000002ba96C69b95E32CAAB8fc38bAB8B3F8 | 0.5                  |\n\
         +--------------------------------------------+----------------------+"
    );
}

#[test]
fn table_of_no_row_is_the_header() {
    assert_eq!(
        WalletStats::render_table(&Vec::new()),
        "+---------+------------+\n\
         | Address | Allocation |\n\
         +---------+------------+"
    );
}
