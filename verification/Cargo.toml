[package]
name = "ble_inspect"
version = "0.1.0"
edition = "2021"
publish = false

[dependencies]
btleplug = { version = "0.11", features = ["serde"] }
chrono = { version = "0.4", features = ["serde"] }
clap = { version = "4", features = ["derive"] }
futures = "0.3"
log = "0.4"
pretty_env_logger = "0.5"
rusqlite = "*"
serde = { version = "1", features = ["derive"] }
serde_json = "1"
serde_yaml = "0.9"
thiserror = "*"
tokio = { version = "1", features = ["full"] }
uuid = "1"
