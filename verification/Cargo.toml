[package]
name = "custody_contracts"
version = "0.1.0"
edition = "2021"
publish = false

[dependencies]
near-sdk = { version = "=5.29.1", features = ["unit-testing"] }
primitive-types = "=0.12.2"
serde_json = "=1.0.154"
