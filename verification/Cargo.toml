[package]
name = "clickhouse_testing"
version = "0.1.0"
edition = "2021"
publish = false

[dependencies]
clickhouse = "*"
serde = { version = "*", features = ["derive"] }
dotenvy = "*"
tokio = { version = "*", features = ["rt", "macros"] }
