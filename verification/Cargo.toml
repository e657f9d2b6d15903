[package]
name = "essex"
version = "0.1.0"
edition = "2021"
publish = false

[dependencies]
anyhow = "1"
futures = "0.3"
libp2p = { version = "0.53", features = ["gossipsub", "mdns", "noise", "tcp", "yamux", "quic", "tokio", "macros"] }
log = "0.4"
rand = "0.8"
rsa = "0.9"
secp256k1 = { version = "0.28", features = ["rand-std", "hashes-std"] }
serde = { version = "1", features = ["derive"] }
serde_json = "1"
tokio = { version = "1", features = ["full"] }
tracing-subscriber = { version = "0.3", features = ["env-filter"] }
