[package]
name = "domo"
version = "0.1.0"
edition = "2021"
publish = false

[dependencies]
chrono = "*"
crc8 = "*"
env_logger = "*"
serde = { version = "1", features = ["derive"] }
serde_json = "1"
spidev = "*"
ufloat8 = "*"
ws = "*"
