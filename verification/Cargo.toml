[package]
name = "minerider"
version = "0.1.0"
edition = "2021"
publish = false

[dependencies]
bytes = "1"
rand = "0.8"
reqwest = { version = "0.12", default-features = false, features = ["stream"] }
serde_json = "1"
sha1 = "0.10"
thiserror = "1"
tokio = { version = "1", features = ["net", "io-util", "time", "sync", "rt", "macros"] }
tracing = "0.1"
