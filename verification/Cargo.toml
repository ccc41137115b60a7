[package]
name = "wallet_core"
version = "0.1.0"
edition = "2021"
publish = false

[dependencies]
base64 = "*"
chacha20poly1305 = "*"
chrono = "*"
k256 = "*"
rand = "0.8"
serde_json = "*"
sha2 = "*"
tiny-keccak = { version = "*", features = ["keccak"] }
url = "*"
