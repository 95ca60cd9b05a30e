[package]
name = "artifactory_client"
version = "0.1.0"
edition = "2021"
publish = false

[dependencies]
reqwest = { version = "=0.12.28", default-features = false, features = ["stream"] }
tokio = { version = "=1.54.1", features = ["fs", "io-util"] }
futures = "=0.3.34"
serde = { version = "=1.0.229", features = ["derive"] }
log = "=0.4.35"
