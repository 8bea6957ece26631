[package]
name = "dvf_node"
version = "0.1.0"
edition = "2021"
publish = false

[dependencies]
base64 = "=0.13.1"
hex = "0.4"
log = "0.4"
parking_lot = "0.12"
rand = "0.8"
secp256k1 = "0.29"
tokio = { version = "1", features = ["sync", "time", "rt"] }
