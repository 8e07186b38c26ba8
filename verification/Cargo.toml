[package]
name = "zero_to_production"
version = "0.1.0"
edition = "2021"
publish = false

[dependencies]
unicode-segmentation = "1"
validator = "0.16"
rand = "0.8"
base64 = "0.22"
uuid = { version = "1", features = ["v4"] }
