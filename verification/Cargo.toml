[package]
name = "blockdag"
version = "0.1.0"
edition = "2021"
publish = false

[dependencies]
faster-hex = "*"
serde = { version = "*", features = ["derive"] }
borsh = { version = "*", features = ["derive"] }
crossbeam-channel = "*"
parking_lot = "*"
rayon = "*"
