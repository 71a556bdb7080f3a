[package]
name = "youtube_downloader"
version = "0.1.0"
edition = "2021"
publish = false

[dependencies]
serde_json = "*"
serde = { version = "*", features = ["derive"] }
toml = "*"
dirs = "*"
clap = { version = "*", features = ["derive"] }
reqwest = { version = "*", default-features = false }
tokio = { version = "*", features = ["rt-multi-thread", "macros", "time", "sync"] }
indicatif = "*"
console = "*"
log = "*"
env_logger = "*"
regex = "*"
