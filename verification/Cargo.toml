[package]
name = "bitwarden_rofi"
version = "0.1.0"
edition = "2021"
publish = false

[dependencies]
serde = { version = "=1.0.229", features = ["derive"] }
serde_json = "=1.0.151"
keyring = { version = "=3.6.3", default-features = false }
xdg = "=3.0.0"
