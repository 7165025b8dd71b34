[package]
name = "kaspa_wallet"
version = "0.1.0"
edition = "2021"
publish = false

[dependencies]
secp256k1 = "*"
sha2 = "*"
ripemd = "*"
bs58 = "*"
rand = "0.8"
clap = { version = "*", features = ["derive"] }
anyhow = "*"
