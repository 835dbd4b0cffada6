[package]
name = "houston"
version = "0.1.0"
edition = "2021"
publish = false

[dependencies]
rand = "0.8"
lz4 = "1"
lzma-rs = "0.3"
texture2ddecoder = "0.1"
image = { version = "0.25", default-features = false }
half = "2"
anyhow = "1"
