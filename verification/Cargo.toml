[package]
name = "bft_test"
version = "0.1.0"
edition = "2021"
publish = false

[dependencies]
log = "0.4"
lru-cache = "0.1"
rand = "0.6"
serde = { version = "1", features = ["derive"] }
serde_derive = "1"
time = "0.1"
