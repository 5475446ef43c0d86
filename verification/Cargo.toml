[package]
name = "text_system"
version = "0.1.0"
edition = "2021"
publish = false

[dependencies]
anyhow = "1"
async-channel = "2"
itertools = "0.14"
parking_lot = "0.12"
smallvec = "1"

[dev-dependencies]
futures = "0.3"
