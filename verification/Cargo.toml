[package]
name = "slisic"
version = "0.1.0"
edition = "2021"
publish = false

[dependencies]
anyhow = "1"
chrono = "0.4"
fs2 = "0.4"
futures = "0.3"
hex = "0.4"
libc = "0.2"
regex = "1"
reqwest = { version = "0.12", default-features = false, features = ["json", "stream", "rustls-tls"] }
serde = { version = "1", features = ["derive"] }
serde_json = "1"
sha2 = "0.10"
tar = "0.4"
tokio = { version = "1", features = ["rt-multi-thread", "macros", "process", "fs", "sync", "time"] }
uuid = { version = "1", features = ["v4"] }
walkdir = "2"
xz2 = "0.1"
zip = { version = "2", default-features = false, features = ["deflate"] }
