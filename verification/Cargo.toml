[package]
name = "vanity_miner"
version = "0.1.0"
edition = "2021"
publish = false

[dependencies]
sha2 = "0.10"
hmac = "0.12"
pbkdf2 = "0.12"
libsecp256k1 = "0.7"
sodalite = "0.4"
base58 = "0.2"
ed25519-dalek = { version = "2", features = ["rand_core"] }
rand = "0.8"
bip39 = { version = "2", features = ["rand"] }
csv = "1"
clap = "4"

[dev-dependencies]
hex = "0.4"
