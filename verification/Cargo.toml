[package]
name = "ec_cryptosystems"
version = "0.1.0"
edition = "2021"
publish = false

[dependencies]
num-bigint = { version = "0.4", features = ["rand"] }
num-integer = "0.1"
num-traits = "0.2"
rand = "0.8"
sha3 = "0.10"
aes-gcm = "0.10"
