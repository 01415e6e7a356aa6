[package]
name = "orion"
version = "0.1.0"
edition = "2021"
publish = false

[dependencies]
chrono = "0.4"
env_logger = "*"
log = "0.4"
once_cell = "1"
parking_lot = "0.12"
rusqlite = { version = "*", features = ["bundled"] }
serde = { version = "1", features = ["derive"] }
serde_json = "1"
ssh2 = "0.9"
