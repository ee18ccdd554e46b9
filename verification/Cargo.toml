[package]
name = "sextant"
version = "0.1.0"
edition = "2021"
publish = false

[dependencies]
rust_decimal = "1"
chrono = "0.4"
uuid = { version = "1", features = ["v5", "v7"] }
thiserror = "2"
rusqlite = { version = "*", features = ["bundled"] }
yahoo_finance_api = { version = "*", features = ["blocking", "decimal"] }
