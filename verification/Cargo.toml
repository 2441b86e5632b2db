[package]
name = "nsetup"
version = "0.1.0"
edition = "2021"
publish = false

[dependencies]
rand = "*"
serde = { version = "1", features = ["derive"] }
serde_yaml = "0.9"
serde_json = "1"
toml = "*"
clap = { version = "4", features = ["derive"] }
dialoguer = "*"
anyhow = "1"
