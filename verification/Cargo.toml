[package]
name = "zcode_gateway"
version = "0.1.0"
edition = "2021"
publish = false

[dependencies]
aes-gcm = "0.10"
async-stream = "0.3"
axum = "0.7"
base64 = "0.22"
chrono = "0.4"
ed25519-dalek = { version = "2", features = ["pkcs8"] }
futures-util = "0.3"
hkdf = "0.12"
hmac = "0.12"
rand = "0.8"
reqwest = { version = "0.12", default-features = false, features = ["json", "stream", "rustls-tls"] }
serde = { version = "1", features = ["derive"] }
serde_json = "1"
sha2 = "0.10"
subtle = "2"
sys-locale = "0.3"
tokio = { version = "1", features = ["full"] }
uuid = { version = "1", features = ["v4"] }
