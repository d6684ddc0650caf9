[package]
name = "nm_monitor"
version = "0.1.0"
edition = "2021"
publish = false

[dependencies]
sha2 = "=0.10.9"
sha1 = "=0.10.7"
hex = "=0.4.3"
serde = { version = "=1.0.229", features = ["derive"] }
serde_json = "=1.0.154"
toml = "=0.8.23"
clap = { version = "=4.6.7", features = ["derive"] }
chrono = "=0.4.45"
hostname = "=0.4.2"
anyhow = "=1.0.104"
md5 = "0.7"
serde_yaml = "0.9"
