[package]
name = "spark"
version = "0.1.0"
edition = "2021"
publish = false

[dependencies]
anyhow = "=1.0.104"
async-button = "=0.2.0"
bincode = { version = "=2.0.1", features = ["derive"] }
crc = "=3.4.0"
esp-idf-svc = "=0.53.0"
log = "=0.4.34"
maplit = "=1.0.2"
smallvec = "=1.16.4"
smart-leds = "=0.4.0"

[dev-dependencies]
postcard = { version = "=1.1.3", features = ["use-crc"] }
serde = { version = "=1.0.229", default-features = false }
