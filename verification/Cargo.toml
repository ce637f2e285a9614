[package]
name = "servo_link"
version = "0.1.0"
edition = "2021"
publish = false

[dependencies]
cobs = "*"
heapless = "0.8"
serde = { version = "1", features = ["derive"] }
serde_cbor = "0.11"
pwm-pca9685 = "*"
embassy-executor = "*"
embassy-nrf = { version = "*", features = ["nrf52833"] }
embassy-sync = "*"
embassy-time = "*"
rtt-target = "*"
panic-probe = "*"
