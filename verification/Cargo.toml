[package]
name = "tendermint_voter"
version = "0.1.0"
edition = "2021"
publish = false

[dependencies]
futures = "0.3"
num = "0.4"
parking_lot = "0.12"
tokio = { version = "1", features = ["macros", "rt", "time"] }
tracing = "0.1"
