[package]
name = "csalt"
version = "0.1.0"
edition = "2021"
publish = false

[dependencies]
anyhow = "=1.0.104"
clap = { version = "=4.6.7", features = ["derive"] }
dirs = "=7.0.0"
self_update = { version = "=1.3.3", default-features = false, features = ["ureq", "rustls", "github"] }
semver = "=1.0.28"
serde = { version = "=1.0.229", features = ["derive"] }
serde_json = "=1.0.154"
sha2 = "=0.10.9"
toml = "=1.1.8"
