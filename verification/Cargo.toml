[package]
name = "orbite"
version = "0.1.0"
edition = "2021"
publish = false

[dependencies]
rust-ini = "*"
serde = { version = "1", features = ["derive"] }
serde_cbor = "*"
serde-pickle = "*"
rand = "*"
