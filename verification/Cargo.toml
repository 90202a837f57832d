[package]
name = "build_watcher"
version = "0.1.0"
edition = "2021"
publish = false

[dependencies]
async-stream = "0.3"
axum = { version = "0.8", features = ["ws"] }
base62 = "2"
chrono = "0.4"
futures = "0.3"
http-body-util = "0.1"
serde = { version = "1", features = ["derive"] }
serde_json = "1"
tokio = { version = "1", features = ["rt-multi-thread", "macros", "process", "fs", "io-util", "net", "sync"] }
tokio-stream = { version = "0.1", features = ["sync"] }
toml = "0.9"
tower = { version = "0.5", features = ["util"] }
tower-http = { version = "0.6", features = ["fs"] }
uuid = { version = "1", features = ["v7"] }
