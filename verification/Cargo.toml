[package]
name = "channel_archive"
version = "0.1.0"
edition = "2021"
publish = false

[dependencies]
anyhow = "=1.0.104"
chrono = "=0.4.45"
futures = "=0.3.34"
pluralizer = "=0.6.0"
poise = "=0.6.2"
reqwest = { version = "=0.12.28", features = ["multipart", "json"] }
serde = { version = "=1.0.229", features = ["derive"] }
serde_json = "=1.0.154"
tempfile = "=3.27.0"
tokio = { version = "=1.54.1", features = ["full"] }
twemoji-assets = { version = "=1.5.1", features = ["png"] }
url = "=2.5.8"
walkdir = "=2.5.0"
zip = "=9.0.5"
