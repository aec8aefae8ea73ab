[package]
name = "z2p"
version = "0.1.0"
edition = "2021"
publish = false

[dependencies]
argon2 = "*"
base64 = "0.13"
unicode-segmentation = "*"
uuid = { version = "*", features = ["v4"] }
