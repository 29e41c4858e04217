[package]
name = "airdrop_rescue"
version = "0.1.0"
edition = "2021"
publish = false

[dependencies]
alloy-primitives = "1"
alloy-sol-types = "1"
alloy-signer-local = "1"
rlp = "0.5"
hex = "0.4"
eyre = "0.6"
futures = "0.3"
tokio = { version = "1", features = ["macros", "rt-multi-thread", "fs", "io-util"] }
serde = { version = "1", features = ["derive"] }
serde_json = "1"
dotenv = "0.15"
