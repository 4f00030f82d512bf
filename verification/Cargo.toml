[package]
name = "actor"
version = "0.1.0"
edition = "2021"
publish = false

[dependencies]
serde_json = "1"
chrono = { version = "0.4", default-features = false, features = ["std", "alloc"] }
base64 = "0.22"
tokio = { version = "1", features = ["sync", "time", "rt", "macros"] }
anyhow = "1"
tracing = "0.1"
async-trait = "0.1"
