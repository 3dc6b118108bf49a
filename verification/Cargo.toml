[package]
name = "media_renamer"
version = "0.1.0"
edition = "2021"
publish = false

[dependencies]
chrono = "=0.4.45"
filetime = "=0.2.29"
serde = { version = "=1.0.229", features = ["derive"] }
serde_json = "=1.0.154"
walkdir = "=2.5.0"
tauri = { version = "2", default-features = false }

[dev-dependencies]
tempfile = "=3.27.0"
