[package]
name = "lightning_core"
version = "0.1.0"
edition = "2021"
publish = false

[dependencies]
fleek-blake3 = "*"
fastcrypto = "*"
ipnet = "2"
tokio = { version = "1", features = ["rt", "sync", "macros", "time"] }
serde = { version = "1", features = ["derive"] }
anyhow = "1"
async-trait = "0.1"
bytes = "1"
async-channel = "*"
dashmap = "*"
