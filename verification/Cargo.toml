[package]
name = "sequencer_randomness"
version = "0.1.0"
edition = "2021"
publish = false

[dependencies]
anyhow = "1"
futures = { version = "0.3", default-features = false, features = ["std"] }
jsonrpsee = { version = "=0.26.1", default-features = false, features = ["macros", "server-core"] }
rustix = { version = "=1.1.6", features = ["rand"] }
serde = { version = "1", features = ["derive"] }
serde_json = "=1.0.154"
starknet-accounts = "=0.16.0"
starknet-core = "=0.16.0"
starknet-crypto = "=0.8.1"
starknet-providers = "=0.16.0"
starknet-signers = { version = "=0.14.0", default-features = false }
starknet-types-core = { version = "=0.2.4", features = ["hash"] }
thiserror = "=2.0.21"
tokio = { version = "1", features = ["io-util", "macros", "net", "rt-multi-thread", "sync", "time"] }
tokio-postgres = "0.7"
tracing = "0.1"
tracing-subscriber = { version = "0.3", features = ["env-filter", "json"] }
url = "2"
