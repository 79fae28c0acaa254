[package]
name = "cathedral"
version = "0.1.0"
edition = "2021"
publish = false

[dependencies]
base64 = "0.22"
zstd = "0.13"
hex = "0.4"
ed25519-dalek = "2"
blake3 = "1"
ml-dsa = "*"
rand = "0.8"
chrono = "0.4"
uuid = { version = "1", features = ["v4"] }
dashmap = "5"
serde = { version = "1", features = ["derive"] }
serde_json = "1"
thiserror = "1"
anyhow = "1"
async-trait = "0.1"
tokio = { version = "1", features = ["sync", "time", "rt", "macros"] }
ndarray = "0.15"
ndarray-rand = "0.14"
bincode = "1"
plonky2 = "0.2"
