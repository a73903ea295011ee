[package]
name = "ai_gateway"
version = "0.1.0"
edition = "2021"
publish = false

[dependencies]
sha2 = "=0.10.9"
subtle = "=2.6.1"
serde_json = "=1.0.154"
rust_decimal = "=1.43.0"
base64 = "=0.22.1"
thiserror = "=2.0.21"
serde = { version = "=1.0.229", features = ["derive"] }
reqwest = { version = "=0.12.28", default-features = false }
chrono = { version = "=0.4.45", default-features = false }
uuid = { version = "=1.29.0", features = ["v4"] }
rand = "=0.9.5"
argon2 = { version = "0.5", features = ["std"] }
