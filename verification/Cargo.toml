[package]
name = "serseg"
version = "0.1.0"
edition = "2021"
publish = false

[dependencies]
anyhow = "=1.0.104"
ascii = { version = "=1.1.0", features = ["serde"] }
clap = { version = "=4.6.7", features = ["derive"] }
env_logger = "=0.11.11"
image = { version = "=0.25.10", default-features = false, features = ["png"] }
log = "=0.4.34"
serde = { version = "=1.0.229", features = ["derive"] }
toml = "=0.8.23"
