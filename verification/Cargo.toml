[package]
name = "zagel"
version = "0.1.0"
edition = "2021"
publish = false

[dependencies]
anyhow = "=1.0.104"
base64 = "0.22"
dirs = "6"
ego-tree = "*"
image = { version = "0.25", default-features = false, features = ["png"] }
notify = "8"
reqwest = { version = "0.12", default-features = false }
scraper = "*"
serde = { version = "1", features = ["derive"] }
serde_json = "1"
toml = "0.9"
vec1 = "1"
walkdir = "2"
