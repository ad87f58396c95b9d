[package]
name = "ledger_replay"
version = "0.1.0"
edition = "2021"

[dependencies]
csv = "1"
rand = "0.8"
serde = { version = "1", features = ["derive"] }
