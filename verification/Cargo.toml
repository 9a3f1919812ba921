[package]
name = "media_composer"
version = "0.1.0"
edition = "2021"
publish = false

[dependencies]
url = "2"
log = "0.4"
serde = { version = "1", features = ["derive"] }
tauri = { version = "2", default-features = false }
tauri-plugin-fs = "2"
tauri-plugin-os = "2"
tauri-plugin-deep-link = "2"
