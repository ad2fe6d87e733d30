[package]
name = "formation"
version = "0.1.0"
edition = "2021"
publish = false

[dependencies]
hex = "0.4"
tiny-keccak = { version = "2", features = ["sha3"] }
k256 = { version = "0.13", features = ["ecdsa"] }
alloy-primitives = { version = "0.8", features = ["k256"] }
base64 = "0.13"
uuid = { version = "1", features = ["v4"] }
rand = "0.8"
serde = { version = "1", features = ["derive"] }
serde_json = "1"
