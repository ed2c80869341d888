[package]
name = "parquet_binary"
version = "0.1.0"
edition = "2021"
publish = false

[dependencies]
polars-arrow = { version = "=0.55.2", default-features = false }
polars-error = { version = "=0.55.2", default-features = false }
