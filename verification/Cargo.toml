[package]
name = "fm_network"
version = "0.1.0"
edition = "2021"
publish = false

[dependencies]
flate2 = "1"
lazy_static = "1"
serde = { version = "1", features = ["derive"] }
serde_json = "1"
tokio = { version = "1", features = ["fs", "io-util", "net", "rt", "sync", "time"] }
