[package]
name = "adbc_clickhouse"
version = "0.1.0"
edition = "2021"
publish = false

[dependencies]
adbc_core = "=0.22.0"
arrow-array = "=57.3.1"
arrow-buffer = "=57.3.1"
arrow-schema = "=57.3.1"
clickhouse-arrow = "=0.2.1"
futures = "=0.3.34"
tokio = { version = "=1.53.2", features = ["rt-multi-thread"] }
