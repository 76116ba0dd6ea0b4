[package]
name = "p2p_file_sync"
version = "0.1.0"
edition = "2021"
publish = false

[dependencies]
bytes = "1"
sha2 = "0.10"
rand = "0.8"
tokio = { version = "1", features = ["full"] }
sqlx = { version = "0.8", default-features = false, features = ["sqlite", "runtime-tokio", "migrate"] }
axum = "0.7"
reqwest = { version = "0.12", default-features = false, features = ["json"] }
ratatui = "0.29"
notify = "6"
color-eyre = "0.6"
eyre = "0.6"
env_logger = "0.11"
log = "0.4"
serde = { version = "1", features = ["derive"] }
serde_json = "1"
toml = "0.8"
dirs = "5"
walkdir = "2"
futures = "0.3"
thiserror = "1"
