[package]
name = "randgen"
version = "0.1.0"
edition = "2021"
publish = false

[dependencies]
getrandom = "0.2"
ring = "*"
tiny-keccak = { version = "2", features = ["sha3"] }
zeroize = "1"
clap = "*"
