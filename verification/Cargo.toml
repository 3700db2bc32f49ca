[package]
name = "rust_tools"
version = "0.1.0"
edition = "2021"
publish = false

[dependencies]
byteorder = "1"
serde_json = "1"
