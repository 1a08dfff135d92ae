[package]
name = "work-tuimer"
version = "0.1.0"
edition = "2021"
publish = false

[dependencies]
anyhow = "1"
dirs = "5"
fuzzy-matcher = "0.3"
serde = { version = "1", features = ["derive"] }
time = { version = "0.3", features = ["local-offset"] }
toml = "0.8"
