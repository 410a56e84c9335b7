[package]
name = "aurora-launchpad-contract"
version = "0.1.0"
edition = "2021"
publish = false

[dependencies]
alloy-primitives = "=1.7.3"
chrono = { version = "=0.4.45", features = ["serde"] }
near-account-id = "=3.0.0"
near-plugins = "*"
near-sdk = { version = "=5.30.0", features = ["non-contract-usage"] }
serde_json = "=1.0.154"
