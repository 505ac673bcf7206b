[package]
name = "synergy"
version = "0.1.0"
edition = "2021"
publish = false

[dependencies]
chrono = "0.4"
chrono-tz = "0.5"
colorful = "0.2"
env_logger = "0.7"
getopts = "0.2"
log = "0.4"
regex = "1"
reqwest = { version = "0.10", features = ["blocking", "json"] }
rusqlite = "0.23"
serde = { version = "1", features = ["derive"] }
serde_json = "1"
toml = "0.5"
tungstenite = "0.10"
uuid = { version = "0.8", features = ["v4"] }
