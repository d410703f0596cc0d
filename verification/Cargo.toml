[package]
name = "curv"
version = "0.1.0"
edition = "2021"
publish = false

[dependencies]
cryptoxide = "*"
num-bigint = "*"
secp256k1 = "*"
