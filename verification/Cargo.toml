[package]
name = "okx_feed"
version = "0.1.0"
edition = "2021"
publish = false

[dependencies]
serde_json = "1.0"
hmac = "0.12"
sha2 = "0.10"
base64 = "0.13"
tokio = { version = "1", features = ["full"] }
tokio-tungstenite = "0.18"
futures-util = "0.3"
