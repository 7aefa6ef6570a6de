[package]
name = "dlprogress"
version = "0.1.0"
edition = "2021"
publish = false

[dependencies]
anyhow = "=1.0.104"
clap = { version = "=4.6.7", features = ["derive"] }
crossterm = "=0.29.0"
http-downloader = { version = "=0.3.2", features = ["speed-tracker", "speed-limiter", "breakpoint-resume", "bson-file-archiver"] }
tokio = { version = "=1.53.2", features = ["full"] }
url = "=2.5.8"
