[package]
name = "radius_rust"
version = "0.1.0"
edition = "2021"
publish = false

[dependencies]
rust-crypto = "0.2"
async-std = "1"
mio = { version = "1", features = ["net", "os-poll"] }
