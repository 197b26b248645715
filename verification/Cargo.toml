[package]
name = "emulot"
version = "0.1.0"
edition = "2021"
publish = false

[dependencies]
serde = { version = "1", features = ["derive"] }
serde_json = "1"
toml = "*"
url = "2"
openssl = "*"
rusqlite = { version = "*", features = ["bundled"] }
tokio = { version = "1", features = ["full"] }
axum = "0.6"
hyper = "0.14"
curl = "0.4"
clap = { version = "4", features = ["derive"] }
crossterm = { version = "*", features = ["event-stream"] }
futures = "0.3"
chashmap = "*"
env_logger = "*"
log = "*"
pin-project-lite = "*"
