[package]
name = "kabletop_godot_sdk"
version = "0.1.0"
edition = "2021"
publish = false

[dependencies]
ckb-crypto = "*"
ckb-hash = "*"
hex = "0.4"
serde = { version = "1", features = ["derive"] }
serde_json = "1"
