[package]
name = "ec_kv_store"
version = "0.1.0"
edition = "2021"
publish = false

[dependencies]
bincode = "1.3"
reed-solomon-erasure = "*"
serde = { version = "1", features = ["derive"] }
tokio = { version = "1", features = ["net", "rt", "rt-multi-thread", "macros", "time", "sync", "fs", "io-util"] }
