[package]
name = "udv"
version = "0.1.0"
edition = "2021"
publish = false

[dependencies]
sha2 = "0.10"
clap = { version = "4", features = ["derive"] }
serde = { version = "1", features = ["derive"] }
serde_json = "1"
toml = "0.8"
