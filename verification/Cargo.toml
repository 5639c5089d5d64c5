[package]
name = "rgb_core"
version = "0.1.0"
edition = "2021"
publish = false

[dependencies]
secp256k1-zkp = { version = "=0.11.2", features = ["rand-std"] }
commit_verify = "=0.12.1"
aluvm = "=0.12.0"
strict_types = "=2.9.1"
amplify = "=4.9.0"
baid58 = "=0.4.4"
