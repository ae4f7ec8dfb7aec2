[package]
name = "a2pi"
version = "0.1.0"
edition = "2021"
publish = false

[dependencies]
serde = { version = "1", features = ["derive"] }
serde_json = "1"
usb-device = "*"
usbd-hid = "*"
usbd-human-interface-device = "*"
