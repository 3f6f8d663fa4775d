[package]
name = "mcpsol"
version = "0.1.0"
edition = "2021"
publish = false

[dependencies]
sha2 = "0.10"
base64 = "0.22"
solana-pubkey = "2"
serde = { version = "1", features = ["derive"] }
serde_json = "1"
