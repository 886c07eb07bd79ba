use alloy::primitives::{Bytes, U256};
use alloy::providers::bindings::IMulticall3;
use alloy::sol_types::SolCall;
use wallet_stats::{
    collect_stats, pair_stats, parse_stats, plan_query, Address, AllocationValue, HexFault, StatsError,
    WalletStats,
};

const VITALIK: [u8; 20] = [
    0xd8, 0xda, 0x6b, 0xf2, 0x69, 0x64, 0xaf, 0x9d, 0x7e, 0xed, 0x9e, 0x03, 0xe5, 0x34, 0x15, 0xd3,
    0x7a, 0xa9, 0x60, 0x45,
];

const CLAIM: [u8; 20] = [
    0x00, 0x00, 0x00, 0x00, 0x02, 0xba, 0x96, 0xc6, 0x9b, 0x95, 0xe3, 0x2c, 0xaa, 0xb8, 0xfc, 0x38,
    0xba, 0xb8, 0xb3, 0xf8,
];

fn word(v: u128) -> Vec<u8> {
    let mut data = vec![0u8; 32];
    data[16..].copy_from_slice(&v.to_be_bytes());
    data
}

fn answer(results: Vec<Vec<u8>>) -> Vec<u8> {
    IMulticall3::aggregateCall::abi_encode_returns(&IMulticall3::aggregateReturn {
        blockNumber: U256::from(19_000_000u64),
        returnData: results.into_iter().map(Bytes::from).collect(),
    })
}

fn stat(bytes: [u8; 20], allocation: &str) -> WalletStats {
    WalletStats { address: Address { bytes }, allocation: allocation.to_string() }
}

const ONE: u128 = 1_000_000_000_000_000_000;

#[test]
fn rows_follow_the_addresses() {
    let addresses = vec![Address { bytes: VITALIK }, Address { bytes: CLAIM }];
    let outcome = Ok(answer(vec![word(ONE), word(5 * ONE / 2)]));
    assert_eq!(
        collect_stats(&addresses, &outcome),
        Ok(vec![stat(VITALIK, "1.000000000000000000"), stat(CLAIM, "2.500000000000000000")])
    );
}

#[test]
fn rows_keep_duplicates_apart() {
    let addresses =
        vec![Address { bytes: CLAIM }, Address { bytes: VITALIK }, Address { bytes: CLAIM }];
    let outcome = Ok(answer(vec![word(1), word(2), word(3)]));
    assert_eq!(
        collect_stats(&addresses, &outcome),
        Ok(vec![
            stat(CLAIM, "0.000000000000000001"),
            stat(VITALIK, "0.000000000000000002"),
            stat(CLAIM, "0.000000000000000003"),
        ])
    );
}

#[test]
fn one_whole_token_is_exported_exactly() {
    let addresses = vec![Address { bytes: VITALIK }];
    let stats = collect_stats(&addresses, &Ok(answer(vec![word(ONE)]))).unwrap();
    assert_eq!(stats[0].allocation, "1.000000000000000000");
}

#[test]
fn export_holds_rows_and_both_renderings() {
    let addresses = vec![Address { bytes: VITALIK }, Address { bytes: CLAIM }];
    let outcome = Ok(answer(vec![word(ONE), word(5 * ONE / 2)]));
    let export = parse_stats(&addresses, &outcome).unwrap();
    assert_eq!(export.stats, collect_stats(&addresses, &outcome).unwrap());
    assert_eq!(export.csv, WalletStats::export_stats_to_csv(&export.stats));
    assert_eq!(export.table, WalletStats::render_table(&export.stats));
    assert_eq!(
        String::from_utf8(export.csv).unwrap(),
        "Address,Allocation\n\
         0xd8da6bf26964af9d7eed9e03e53415d37aa96045,1.000000000000000000\n\
         0x0000000002ba96c69b95e32caab8fc38bab8b3f8,2.500000000000000000\n"
    );
}

#[test]
fn failed_call_gives_no_export() {
    let addresses = vec![Address { bytes: VITALIK }];
    match parse_stats(&addresses, &Err("connection reset".to_string())) {
        Err(error) => {
            assert_eq!(error, StatsError::Transport { cause: "connection reset".to_string() })
        }
        Ok(_) => panic!("a failed call was exported"),
    }
}

#[test]
fn malformed_answer_gives_no_export() {
    let addresses = vec![Address { bytes: VITALIK }];
    for outcome in [Ok(vec![1u8, 2, 3]), Ok(answer(Vec::new())), Ok(answer(vec![vec![0u8; 8]]))] {
        assert!(parse_stats(&addresses, &outcome).is_err());
    }
}

#[test]
fn no_address_gives_no_row() {
    assert_eq!(collect_stats(&Vec::new(), &Ok(answer(Vec::new()))), Ok(Vec::new()));
}

#[test]
fn failed_call_gives_no_row() {
    let addresses = vec![Address { bytes: VITALIK }];
    assert_eq!(
        collect_stats(&addresses, &Err("timed out".to_string())),
        Err(StatsError::Transport { cause: "timed out".to_string() })
    );
}

#[test]
fn malformed_result_gives_no_row() {
    let addresses = vec![Address { bytes: VITALIK }, Address { bytes: CLAIM }];
    assert_eq!(
        collect_stats(&addresses, &Ok(answer(vec![word(1), vec![1, 2, 3]]))),
        Err(StatsError::MalformedReturn { index: 1 })
    );
}

#[test]
fn wrong_count_gives_no_row() {
    let addresses = vec![Address { bytes: VITALIK }, Address { bytes: CLAIM }];
    assert_eq!(
        collect_stats(&addresses, &Ok(answer(vec![word(1), word(2), word(3)]))),
        Err(StatsError::ReturnCount { expected: 2, returned: 3 })
    );
}

#[test]
fn pairing_is_by_position() {
    let addresses = vec![Address { bytes: CLAIM }, Address { bytes: VITALIK }];
    let values = vec![
        AllocationValue::decode(&word(7 * ONE)).unwrap(),
        AllocationValue::decode(&word(0)).unwrap(),
    ];
    assert_eq!(
        pair_stats(&addresses, &values),
        vec![stat(CLAIM, "7.000000000000000000"), stat(VITALIK, "0.000000000000000000")]
    );
}

#[test]
fn plan_reads_the_list_and_builds_the_batch() {
    let text = "\n 0xd8dA6BF26964aF9D7eEd9e03E53415D37aA96045 \r\n\n0000000002ba96c69b95e32caab8fc38bab8b3f8\n";
    let query = plan_query(text).unwrap();
    assert_eq!(query.addresses, vec![Address { bytes: VITALIK }, Address { bytes: CLAIM }]);
    assert_eq!(query.calls.len(), 2);
    assert_eq!(query.calls[0].target, Address { bytes: CLAIM });
    assert_eq!(query.calls[0].call_data[16..], VITALIK);
    assert_eq!(query.calls[1].call_data[16..], CLAIM);
    assert_eq!(query.request, wallet_stats::aggregate_request(&query.calls));
}

#[test]
fn plan_fails_on_an_invalid_line() {
    let text = "0xd8dA6BF26964aF9D7eEd9e03E53415D37aA96045\n  not-an-address  \n";
    match plan_query(text) {
        Err(error) => assert_eq!(
            error,
            StatsError::InvalidAddress {
                line: "not-an-address".to_string(),
                fault: HexFault::InvalidStringLength,
            }
        ),
        Ok(_) => panic!("a batch was planned for an invalid list"),
    }
}

#[test]
fn plan_of_a_blank_file_is_an_empty_batch() {
    let query = plan_query(" \n\t\n\r\n\n").unwrap();
    assert!(query.addresses.is_empty());
    assert!(query.calls.is_empty());
    assert_eq!(query.request.call_data.len(), 68);
}
