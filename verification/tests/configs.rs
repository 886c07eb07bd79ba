use wallet_stats::config::RPC_URL_KEY;
use wallet_stats::Config;

#[test]
fn key_of_the_url() {
    assert_eq!(RPC_URL_KEY, "base_rpc_url");
}

#[test]
fn config_is_read_from_toml() {
    let config = Config::parse("base_rpc_url = \"https://rpc.example.org\"\n");
    assert_eq!(config, Some(Config { base_rpc_url: "https://rpc.example.org".to_string() }));
}

#[test]
fn other_entries_are_ignored() {
    let config = Config::parse(
        "# endpoints\nretries = 3\nbase_rpc_url = 'http://localhost:8545'\n\n[extra]\nname = \"x\"\n",
    );
    assert_eq!(config, Some(Config { base_rpc_url: "http://localhost:8545".to_string() }));
}

#[test]
fn missing_url_is_no_config() {
    assert_eq!(Config::parse(""), None);
    assert_eq!(Config::parse("rpc_url = \"https://rpc.example.org\"\n"), None);
}

#[test]
fn url_in_a_table_is_no_config() {
    assert_eq!(Config::parse("[rpc]\nbase_rpc_url = \"https://rpc.example.org\"\n"), None);
}

#[test]
fn url_of_another_type_is_no_config() {
    assert_eq!(Config::parse("base_rpc_url = 8545\n"), None);
    assert_eq!(Config::parse("base_rpc_url = [\"a\"]\n"), None);
}

#[test]
fn malformed_document_is_no_config() {
    assert_eq!(Config::parse("base_rpc_url = "), None);
    assert_eq!(Config::parse("base_rpc_url \"https://rpc.example.org\""), None);
}

#[test]
fn from_url_keeps_the_url() {
    assert_eq!(
        Config::from_url(Some("ws://node".to_string())),
        Some(Config { base_rpc_url: "ws://node".to_string() })
    );
    assert_eq!(Config::from_url(None), None);
}
