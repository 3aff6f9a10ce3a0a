[package]
name = "antigravity_proxy"
version = "0.1.0"
edition = "2021"
publish = false

[dependencies]
async-stream = "0.3"
axum = "0.7"
base64 = "0.22"
bytes = "1"
chrono = "0.4"
dirs = "5"
futures = "0.3"
rand = "0.8"
reqwest = { version = "0.12", default-features = false, features = ["stream"] }
rusqlite = { version = "0.32", features = ["bundled"] }
serde = { version = "1", features = ["derive"] }
serde_json = "1"
tokio = { version = "1", features = ["io-util", "macros", "net", "rt", "rt-multi-thread", "sync", "time"] }
tracing = "0.1"
url = "2"
uuid = { version = "1", features = ["v4"] }
