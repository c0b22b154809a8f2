[package]
name = "link_review"
version = "0.1.0"
edition = "2021"
publish = false

[dependencies]
argon2 = "=0.6.0"
askama = "=0.16.1"
axum = "=0.8.9"
axum-extra = { version = "=0.10.3", features = ["cookie-private", "cookie-key-expansion"] }
base64 = "=0.22.1"
chrono = "=0.4.45"
dotenvy = "=0.15.7"
futures-util = "=0.3.34"
hmac = "=0.12.1"
mongodb = "=3.9.1"
serde = { version = "=1.0.229", features = ["derive"] }
serde_json = "=1.0.154"
sha2 = "=0.10.9"
tokio = { version = "=1.54.1", features = ["full"] }
tower-http = { version = "=0.6.11", features = ["fs", "trace"] }
tracing = "=0.1.44"
tracing-subscriber = "=0.3.23"
