[package]
name = "ncm_decoder"
version = "0.1.0"
edition = "2021"
publish = false

[dependencies]
aes = "0.7"
block-modes = "0.8"
base64 = "0.21"
hex = "0.4"
serde_json = "1"
walkdir = "2"
