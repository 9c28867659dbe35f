[package]
name = "config_vault"
version = "0.1.0"
edition = "2021"
publish = false

[dependencies]
url = "2"
serde_json = "1"
reqwest = { version = "0.12", default-features = false, features = ["blocking"] }
config = { version = "0.15", default-features = false }
