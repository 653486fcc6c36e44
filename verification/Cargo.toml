[package]
name = "biliget"
version = "0.1.0"
edition = "2021"
publish = false

[dependencies]
url = "2"
tokio = { version = "1", features = ["fs", "io-util", "macros", "process", "rt-multi-thread", "sync", "time"] }
reqwest = { version = "0.11", default-features = false, features = ["cookies", "json", "stream"] }
futures = "0.3"
warp = "0.3"
serde_json = "1"
lazy_static = "1"
