[package]
name = "projectpad"
version = "0.1.0"
edition = "2021"
publish = false

[dependencies]
pulldown-cmark = { version = "0.8", default-features = false }
regex = "1"
serde = { version = "1", features = ["derive"] }
serde_yaml = "0.8"
toml = "0.5"
dirs = "3"
