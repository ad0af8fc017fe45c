[package]
name = "mk"
version = "0.1.0"
edition = "2021"
publish = false

[dependencies]
clap = { version = "4", features = ["cargo", "string"] }
env_logger = "0.11"
log = "0.4"

[dev-dependencies]
regex = "1"
