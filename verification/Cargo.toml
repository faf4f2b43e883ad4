[package]
name = "wakeup_alarm"
version = "0.1.0"
edition = "2021"
publish = false

[dependencies]
rand = "0.8"
chrono = { version = "0.4", features = ["serde"] }
rodio = { version = "0.11", default-features = false }
symphonia = { version = "0.5", features = ["mp3"] }
thiserror = "1"
log = "0.4"
env_logger = "0.10"
futures = "0.3"
tokio = { version = "1", features = ["rt-multi-thread", "macros", "time", "sync"] }
rocket = { version = "0.5", features = ["json"] }
serde = { version = "1", features = ["derive"] }
mpu6050 = "0.1"
linux-embedded-hal = "0.4"
