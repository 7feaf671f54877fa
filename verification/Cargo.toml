[package]
name = "trading_system"
version = "0.1.0"
edition = "2021"
publish = false

[dependencies]
anyhow = "1"
async-trait = "*"
chrono = "0.4"
crossbeam = "*"
crossbeam-channel = "*"
cudarc = "*"
ibapi = "*"
include_dir = "*"
polars = { version = "*", features = ["lazy", "csv", "is_in", "diagonal_concat"] }
rand = "*"
serde = { version = "1", features = ["derive"] }
serde_yaml = "*"
tokio = { version = "1", features = ["full"] }
toml = "*"
