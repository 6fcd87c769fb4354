[package]
name = "akrond"
version = "0.1.0"
edition = "2021"
publish = false

[dependencies]
anyhow = "1"
directories = "5"
env_logger = "0.11"
futures-util = "0.3"
hex = "=0.4.3"
log = "0.4"
reqwest = { version = "0.12", default-features = false, features = ["rustls-tls", "stream"] }
tokio = { version = "1", features = ["full"] }
spaces_client = "*"

[dev-dependencies]
regex = "1"
