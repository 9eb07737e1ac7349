[package]
name = "audio_router"
version = "0.1.0"
edition = "2021"
publish = false

[dependencies]
anyhow = "=1.0.104"
chrono = "=0.4.45"
cpal = "=0.15.3"
ctrlc = "=3.5.2"
log = { version = "=0.4.34", features = ["std"] }
ringbuf = "=0.3.3"
serde = { version = "=1.0.229", features = ["derive"] }
serde_yaml = "0.9"
windows-service = "=0.8.1"
