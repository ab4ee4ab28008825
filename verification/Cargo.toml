[package]
name = "backend"
version = "0.1.0"
edition = "2021"
publish = false

[dependencies]
bcrypt = "*"
url = "*"
base64 = "*"
serde = { version = "1", features = ["derive"] }
serde_json = "1"
async-trait = "*"
axum = "*"
tokio = { version = "1", features = ["rt", "rt-multi-thread", "macros"] }
reqwest = "*"
mysql = "*"
rusqlite = "*"
tracing = "*"
