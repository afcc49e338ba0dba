[package]
name = "kassigner"
version = "0.1.0"
edition = "2021"
publish = false

[dependencies]
sha2 = "=0.10.9"
aes-gcm = "=0.10.3"
rqrr = { version = "=0.10.1", default-features = false }
k256 = "0.13"
heapless = "0.8"
critical-section = { version = "1", features = ["std"] }
esp-hal = { version = "1", features = ["esp32s3", "unstable"] }
