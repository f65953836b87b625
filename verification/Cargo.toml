[package]
name = "ap_handshake"
version = "0.1.0"
edition = "2021"
publish = false

[dependencies]
hmac = "=0.12.1"
rand = "=0.9.5"
reqwest = { version = "=0.12.28", default-features = false }
rsa = "=0.9.10"
serde = { version = "=1.0.229", features = ["derive"] }
serde_json = "=1.0.151"
sha1 = { version = "=0.10.7", features = ["oid"] }
tokio = { version = "=1.53.2", features = ["io-util", "macros", "net", "rt-multi-thread"] }
