[package]
name = "simple_cut"
version = "0.1.0"
edition = "2021"
publish = false

[dependencies]
anyhow = "1"
env_logger = "0.11"
log = "0.4"
serde = { version = "1", features = ["derive"] }
serde_json = "1"
shlex = "1.3.0"
tauri = { version = "2", default-features = false }
tokio = { version = "1", features = ["sync", "process", "io-util", "rt", "macros"] }
toml = "0.8"
uuid = { version = "1", features = ["v4", "serde"] }
