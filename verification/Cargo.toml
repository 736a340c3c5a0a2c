[package]
name = "lego-radio"
version = "0.5.5"
edition = "2021"
publish = false

[dependencies]
anyhow = "1"
env_logger = { version = "0.11", default-features = false }
log = "0.4"
m3u8-rs = "6"
rodio = { version = "0.20", default-features = false }
rppal = "0.22"
sentry = { version = "*", default-features = false, features = ["anyhow", "contexts", "panic", "ureq", "rustls"] }
serde = { version = "1", features = ["derive"] }
serde_json = "1"
sha2 = "0.10"
softbuffer = { version = "0.4", default-features = false }
symphonia = { version = "0.5", features = ["aac", "mp3", "isomp4"] }
toml = "0.8"
ureq = { version = "2", features = ["json"] }
winit = { version = "0.30", default-features = false, features = ["rwh_06"] }
