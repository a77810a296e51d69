[package]
name = "iceberg_transaction"
version = "0.1.0"
edition = "2021"
publish = false

[dependencies]
uuid = { version = "1", features = ["v4", "v7"] }
chrono = { version = "0.4", default-features = false, features = ["now"] }
futures = "0.3"
async-trait = "0.1"
