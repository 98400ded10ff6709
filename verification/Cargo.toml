[package]
name = "xpass"
version = "0.1.0"
edition = "2021"
publish = false

[dependencies]
aes-gcm = "=0.10.3"
argon2 = { version = "=0.5.3", features = ["std"] }
base32 = "=0.4.0"
base64 = "=0.22.1"
chrono = "=0.4.45"
env_logger = "=0.11.11"
lazy_static = "=1.5.1"
log = "=0.4.34"
rand = "=0.8.8"
rusqlite = { version = "=0.32.1", features = ["bundled"] }
serde = { version = "=1.0.229", features = ["derive"] }
serde_json = { version = "=1.0.154", features = ["preserve_order"] }
sha2 = "=0.10.9"
totp-rs = "=5.7.2"
