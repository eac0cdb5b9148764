[package]
name = "eth_arithmetic"
version = "0.1.0"
edition = "2021"
publish = false

[dependencies]
arbitrary = { version = "1", features = ["derive"] }
libfuzzer-sys = { version = "0.4", default-features = false }
