[package]
name = "postui"
version = "0.1.0"
edition = "2021"
publish = false

[dependencies]
anyhow = "=1.0.104"
base64 = "=0.23.1"
crossterm = "=0.29.0"
memchr = "=2.8.3"
ratatui = "=0.30.2"
reqwest = { version = "=0.13.5", default-features = false }
serde = { version = "=1.0.229", features = ["derive"] }
serde_json = "=1.0.154"
serde-saphyr = "=2.0.0"
shlex = "=2.0.1"
unicode-segmentation = "=1.13.3"
