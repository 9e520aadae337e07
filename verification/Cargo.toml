[package]
name = "tether"
version = "0.1.0"
edition = "2021"
publish = false

[dependencies]
sha2 = "0.10"
axum = "0.8"
bytes = "1"
serde = { version = "1", features = ["derive"] }
serde_json = "1"
uuid = { version = "1", features = ["v4"] }
chrono = "0.4"
tokio = { version = "1", features = ["sync", "rt", "macros"] }
reqwest = { version = "0.12", default-features = false, features = ["blocking"] }
rusqlite = { version = "0.32", features = ["bundled"] }
sqlx = { version = "0.8", default-features = false, features = ["postgres", "runtime-tokio", "migrate", "uuid"] }
