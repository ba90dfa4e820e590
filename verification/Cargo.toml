[package]
name = "staking_pool"
version = "0.1.0"
edition = "2021"
publish = false

[dependencies]
near-sdk = { version = "=5.30.0", features = ["legacy", "non-contract-usage"] }
bs58 = "=0.5.1"
