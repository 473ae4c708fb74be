[package]
name = "aluvm"
version = "0.1.0"
edition = "2021"
publish = false

[dependencies]
amplify = "4"
secp256k1 = { version = "0.29", features = ["global-context"] }
sha2 = "0.10"
ripemd = "0.1"
half = "2"
bitcoin_hashes = "0.14"
