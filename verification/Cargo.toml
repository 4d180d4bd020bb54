[package]
name = "cryptography"
version = "0.1.0"
edition = "2021"
publish = false

[dependencies]
block-buffer = "0.7"
fake-simd = "0.1"
serde = "1"
