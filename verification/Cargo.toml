[package]
name = "vanity_eth"
version = "0.1.0"
edition = "2021"
publish = false

[dependencies]
secp256k1 = { version = "0.28", features = ["rand-std"] }
rand = "0.8"
tiny-keccak = { version = "2", features = ["keccak"] }
hex = "0.4"
regex = "1"
chrono = "0.4"
num_cpus = "1"
threadpool = "1"
