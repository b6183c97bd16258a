[package]
name = "spwallet"
version = "0.1.0"
edition = "2021"
publish = false

[dependencies]
anyhow = "=1.0.104"
bip39 = { version = "=2.2.2", features = ["rand"] }
bitcoin = { version = "=0.31.3", features = ["base64", "rand", "serde"] }
flutter_rust_bridge = "=1.82.6"
log = "=0.4.34"
nakamoto = "=0.4.0"
serde = { version = "=1.0.229", features = ["derive"] }
serde_json = "=1.0.154"
serde_with = "=3.24.0"
silentpayments = "=0.1.1"
