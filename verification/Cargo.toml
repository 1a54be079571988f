[package]
name = "sharinflame"
version = "0.1.0"
edition = "2021"
publish = false

[dependencies]
axum = "*"
base64 = "*"
bytes = "*"
deadpool-postgres = "*"
dotenvy = "*"
fred = "*"
hex = "*"
hmac = "*"
http-body-util = "*"
pbkdf2 = "*"
rand = "*"
serde = { version = "*", features = ["derive"] }
serde_json = "*"
serde_with = "*"
sha2 = "*"
thiserror = "*"
tokio = { version = "*", features = ["full"] }
tokio-postgres = "*"
tower = "*"
tower-http = { version = "*", features = ["cors", "catch-panic"] }
tracing = "*"
tracing-subscriber = "*"
validator = { version = "*", features = ["derive"] }
