[package]
name = "abab"
version = "0.1.0"
edition = "2021"
publish = false

[dependencies]
rlp = "*"
tiny-keccak = { version = "2", features = ["keccak"] }
secp256k1 = { version = "*", features = ["recovery"] }
libsecp256k1 = "*"
primitive-types = "*"
