[package]
name = "xiu"
version = "0.1.0"
edition = "2021"
publish = false

[dependencies]
hmac = "0.11"
sha2 = "0.9"
rand = "0.8"
hex = "0.4"
tokio = { version = "1", features = ["full"] }
axum = "0.7"
tokio-util = { version = "0.7", features = ["codec", "io"] }
serde = { version = "1", features = ["derive"] }
serde_json = "1"
