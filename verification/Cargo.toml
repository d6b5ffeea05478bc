[package]
name = "epd_dashboard"
version = "0.1.0"
edition = "2021"
publish = false

[dependencies]
anyhow = "1"
embedded-graphics = "0.8"
epd-waveshare = "0.6"
esp-idf-svc = "*"
log = "0.4"
serde = { version = "1", features = ["derive"] }
serde_json = "1"
