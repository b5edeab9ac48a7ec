[package]
name = "pg_iceberg_am"
version = "0.1.0"
edition = "2021"
publish = false

[dependencies]
roaring = "*"
rust_decimal = "*"
thiserror = "*"
