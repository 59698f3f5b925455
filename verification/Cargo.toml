[package]
name = "ffmpeg_task"
version = "0.1.0"
edition = "2021"
publish = false

[dependencies]
once_cell = "1"
rfd = { version = "*", default-features = false }
serde = { version = "1", features = ["derive"] }
serde_json = "1"
tauri = { version = "2", default-features = false }
