[package]
name = "ananke"
version = "0.1.0"
edition = "2021"
publish = false

[dependencies]
parking_lot = "0.12"
regex = "1"
rusqlite = { version = "*", features = ["bundled"] }
serde = { version = "1", features = ["derive"] }
serde_json = "1"
tokio = { version = "1", features = ["macros", "rt", "sync", "time"] }
toml = "*"
tracing = "0.1"
utoipa = "5"
uuid = { version = "1", features = ["v4"] }
