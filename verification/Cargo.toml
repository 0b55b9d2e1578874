[package]
name = "reason_store"
version = "0.1.0"
edition = "2021"
publish = false

[dependencies]
rocksdb = "*"
serde = { version = "*", features = ["derive"] }
serde_json = "*"
