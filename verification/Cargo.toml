[package]
name = "remi_client_sdk"
version = "0.1.0"
edition = "2021"
publish = false

[dependencies]
anyhow = "1"
base64 = "0.22"
charabia = { version = "0.9", default-features = false }
chrono = "0.4"
croner = "3"
rusqlite = { version = "*", features = ["bundled"] }
sentry = { version = "*", default-features = false }
serde = { version = "1", features = ["derive"] }
serde_json = "1"
tantivy = "*"
tracing = "0.1"
uuid = { version = "1", features = ["v4", "v5"] }
