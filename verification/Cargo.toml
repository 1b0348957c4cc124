[package]
name = "wave_backend"
version = "0.1.0"
edition = "2021"
publish = false

[dependencies]
serde_json = "1"
unicode-segmentation = "1"
reqwest = { version = "0.12", default-features = false, features = ["blocking"] }
