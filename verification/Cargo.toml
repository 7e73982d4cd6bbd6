[package]
name = "sync_core"
version = "0.1.0"
edition = "2021"
publish = false

[dependencies]
serde_json = "1"
reqwest = { version = "=0.12.28", default-features = false, features = ["blocking"] }
