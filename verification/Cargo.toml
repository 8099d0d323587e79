[package]
name = "looptunes"
version = "0.1.0"
edition = "2021"
publish = false

[dependencies]
base64 = "*"
zstd = "*"
crossbeam-channel = "*"
rand = "*"
