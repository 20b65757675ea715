[package]
name = "vidodo"
version = "0.1.0"
edition = "2021"
publish = false

[dependencies]
serde = { version = "=1.0.229", features = ["derive"] }
serde_json = "=1.0.154"
rusqlite = { version = "*", features = ["bundled"] }
axum = "*"
tokio = { version = "1", features = ["macros", "rt-multi-thread", "net"] }
