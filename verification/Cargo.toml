[package]
name = "api_bones"
version = "0.1.0"
edition = "2021"
publish = false

[dependencies]
uuid = { version = "1", features = ["v4"] }
base64 = "0.22"
hmac = "0.12"
sha2 = "0.10"
serde = { version = "1", features = ["derive"] }
serde_json = "1"
thiserror = "2"
http = "1"
axum = "0.8"
chrono = "0.4"
zeroize = { version = "1", features = ["derive"] }
connectrpc = "*"
