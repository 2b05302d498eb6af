[package]
name = "panehost"
version = "0.1.0"
edition = "2021"
publish = false

[dependencies]
url = "2"
serde_json = "1"
tauri = { version = "2", default-features = false }
