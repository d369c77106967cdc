[package]
name = "vanity_address"
version = "0.1.0"
edition = "2021"
publish = false

[dependencies]
rand = "=0.8.8"
secp256k1 = { version = "=0.27.0", features = ["rand-std"] }
tiny-keccak = { version = "=2.0.2", features = ["keccak"] }
