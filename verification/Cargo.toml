[package]
name = "soundboard"
version = "0.1.0"
edition = "2021"
publish = false

[dependencies]
rodio = { version = "0.23", default-features = false }
anyhow = "=1.0.104"
dirs = "=5.0.1"
serde = { version = "=1.0.229", features = ["derive"] }
serde_json = "=1.0.154"
