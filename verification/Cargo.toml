[package]
name = "harbor_cache"
version = "0.1.0"
edition = "2021"
publish = false

[dependencies]
url = "=2.5.8"
sha2 = "=0.10.9"
hex = "=0.4.3"
serde = { version = "=1.0.229", features = ["derive"] }
toml = "=0.8.23"
tempfile = "=3.27.0"
anyhow = "=1.0.104"
clap = { version = "=4.6.7", features = ["derive"] }
chrono = "=0.4.45"
jsonwebtoken = "=9.3.1"

[dev-dependencies]
uuid = { version = "=1.29.0", features = ["v4"] }
