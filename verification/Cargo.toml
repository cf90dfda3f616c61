[package]
name = "btoken"
version = "0.1.0"
edition = "2021"
publish = false

[dependencies]
near-sdk = "=2.0.1"
near-crypto = "0.23.0"
near-primitives = "0.23.0"
serde = { version = "1", features = ["derive"] }
serde_json = "1"
