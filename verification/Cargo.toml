[package]
name = "edgefs"
version = "0.1.0"
edition = "2021"
publish = false

[dependencies]
futures = "0.3"
reqwest = { version = "0.12", default-features = false }
tokio = { version = "1", features = ["fs", "rt", "sync"] }
