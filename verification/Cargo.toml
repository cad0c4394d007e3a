[package]
name = "migrate_preview"
version = "0.1.0"
edition = "2021"
publish = false

[dependencies]
serde_json = { version = "=1.0.154", features = ["float_roundtrip"] }
serde = { version = "=1.0.229", features = ["derive"] }
axum = "=0.7.9"
tokio = { version = "=1.54.1", features = ["full"] }
tower-sessions = "=0.12.3"
reqwest = { version = "=0.12.28", default-features = false, features = ["json", "rustls-tls"] }
oauth2 = { version = "=4.4.2", default-features = false }
time = "=0.3.55"
dotenvy = "=0.15.7"
