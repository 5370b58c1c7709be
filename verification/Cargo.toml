[package]
name = "usbipd_rs"
version = "0.3.0"
edition = "2021"
publish = false

[dependencies]
anyhow = "1"
nusb = "0.2"
serialport = { version = "4", default-features = false }
unicode-width = "0.2"
ureq = "2"
zip = { version = "2", default-features = false, features = ["deflate"] }
