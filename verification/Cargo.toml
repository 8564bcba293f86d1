[package]
name = "unihook"
version = "0.1.0"
edition = "2021"
publish = false

[dependencies]
axum = "0.8"
envy = "0.4"
hmac = "0.12"
parking_lot = "0.12"
reqwest = { version = "0.12", default-features = false, features = ["json"] }
rusqlite = { version = "0.32", features = ["bundled"] }
serde = { version = "1", features = ["derive"] }
serde_json = "1"
sha2 = "0.10"
thiserror = "1"
tokio = { version = "1", features = ["full"] }
tracing = "0.1"
tracing-subscriber = { version = "0.3", features = ["env-filter"] }
