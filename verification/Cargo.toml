[package]
name = "flight_chat"
version = "0.1.0"
edition = "2021"
publish = false

[dependencies]
serde = { version = "1", features = ["derive"] }
serde_json = "1"
tauri = { version = "=2.12.5", default-features = false, features = ["wry"] }
url = "2"
webview2-com = "0.39"
windows-core = "0.62"
