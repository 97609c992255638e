[package]
name = "file_downloader"
version = "0.1.0"
edition = "2021"
publish = false

[dependencies]
serde_json = "1"
rusqlite = { version = "*", features = ["bundled"] }
reqwest = { version = "*", default-features = false, features = ["stream", "rustls-tls"] }
tokio = { version = "1", features = ["rt-multi-thread", "macros", "fs", "io-util"] }
futures-util = "0.3"
rustube = "*"
