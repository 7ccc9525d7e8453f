[package]
name = "neuroclip"
version = "0.3.1"
edition = "2021"
publish = false

[dependencies]
hound = "=3.5.1"
serde = { version = "=1.0.229", features = ["derive"] }
serde_json = "=1.0.154"
notify = "=6.1.1"
walkdir = "=2.5.0"
rusqlite = { version = "=0.31.0", features = ["bundled"] }
dirs = "=5.0.1"
reqwest = { version = "0.12", default-features = false, features = ["json", "stream", "rustls-tls"] }
tokio = { version = "1", features = ["rt-multi-thread", "fs", "time", "io-util"] }
futures-util = "0.3"
