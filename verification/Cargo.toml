[package]
name = "tron_vanity"
version = "0.1.0"
edition = "2021"
publish = false

[dependencies]
secp256k1 = "*"
sha2 = "*"
sha3 = "*"
bs58 = "*"
hex = "*"
rand = "0.8"
rayon = "*"
ctrlc = "*"
serde = { version = "*", features = ["derive"] }
serde_json = "*"
