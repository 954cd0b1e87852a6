[package]
name = "rana"
version = "0.1.0"
edition = "2021"
publish = false

[dependencies]
bech32 = "0.9"
clap = { version = "4", features = ["derive"] }
colored = "2"
hex = "0.4"
nostr = { version = "0.24", default-features = false, features = ["std", "nip06"] }
num_cpus = "1"
qrcode = { version = "0.12", default-features = false }
rand = "0.8"
regex = "1"
secp256k1 = { version = "0.27", features = ["rand-std"] }
