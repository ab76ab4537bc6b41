[package]
name = "refactor_backend"
version = "0.1.0"
edition = "2021"
publish = false

[dependencies]
anyhow = "1"
bincode = "1"
dashmap = "5"
napi = "2"
napi-derive = "2"
parking_lot = "0.12"
regex = "1"
serde = { version = "1", features = ["derive"] }
serde_json = "1"
toml = "0.8"
zstd = "0.13"
