[package]
name = "reindeer"
version = "0.1.0"
edition = "2021"
publish = false

[dependencies]
semver = "1"
anyhow = "1"
serde = { version = "1", features = ["derive"] }
toml = "*"
walkdir = "2"
