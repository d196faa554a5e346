[package]
name = "puzzle_engine"
version = "0.1.0"
edition = "2021"
publish = false

[dependencies]
anyhow = "*"
axum = "0.8"
rand = "0.9"
rusqlite = { version = "*", features = ["bundled"] }
serde = { version = "*", features = ["derive"] }
serde_rusqlite = "*"
skillratings = "*"
tokio = { version = "*", features = ["macros", "rt-multi-thread", "net"] }
tower = "*"
tower-http = { version = "*", features = ["trace", "cors"] }
tracing = "*"
tracing-subscriber = "*"
