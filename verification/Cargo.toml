[package]
name = "vc_service"
version = "0.1.0"
edition = "2021"
publish = false

[dependencies]
actix-web = "4"
base58 = "0.2"
base64 = "*"
chrono = "0.4"
ed25519-dalek = "1"
env_logger = "*"
log = "0.4"
rand = "0.8"
serde = { version = "1", features = ["derive"] }
serde_json = "1"
sha2 = "0.10"
uuid = { version = "1", features = ["v4"] }
