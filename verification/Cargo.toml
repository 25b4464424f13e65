[package]
name = "mini_wasm"
version = "0.1.0"
edition = "2021"
publish = false

[dependencies]
wat = { version = "=1.263.0", default-features = false }
