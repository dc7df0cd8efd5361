[package]
name = "voice_rooms"
version = "0.1.0"
edition = "2021"
publish = false

[dependencies]
log = "0.4"
serde = { version = "1", features = ["derive"] }
serde_yaml = "0.8"
serenity = "0.9"
simple_logger = "1"
tokio = { version = "0.2", features = ["macros", "rt-threaded"] }
