[package]
name = "wallet_stats"
version = "0.1.0"
edition = "2021"
publish = false

[dependencies]
alloy = { version = "~1.0", default-features = false, features = ["std", "provider-http", "reqwest", "sol-types"] }
csv = "1"
tabled = { version = "0.20", default-features = false, features = ["std"] }
tokio = { version = "1", features = ["fs", "rt"] }
toml = "0.5"
tracing = "0.1"
