[package]
name = "music_downloader"
version = "0.1.0"
edition = "2021"
publish = false

[dependencies]
uuid = { version = "=1.29.1", features = ["v4", "serde"] }
chrono = { version = "=0.4.45", features = ["serde"] }
sanitize-filename = "=0.6.0"
serde = { version = "=1.0.229", features = ["derive"] }
serde_json = "=1.0.154"
tokio = { version = "=1.54.1", features = ["full"] }
directories = "=6.0.0"
futures = "=0.3.34"
async-trait = "=0.1.92"
yt-dlp = { version = "=2.10.0", features = ["hooks"] }
