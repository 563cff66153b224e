[package]
name = "spacer"
version = "0.1.0"
edition = "2021"
publish = false

[dependencies]
anyhow = "=1.0.104"
chrono = "=0.4.45"
chrono-tz = "=0.10.4"
clap = { version = "=4.6.7", features = ["derive"] }
env_logger = "=0.11.11"
human-panic = "=2.0.8"
log = "=0.4.34"
owo-colors = { version = "=4.4.0", features = ["supports-colors"] }
terminal_size = "=0.4.4"
