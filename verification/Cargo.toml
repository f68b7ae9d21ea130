[package]
name = "live_translate"
version = "0.1.0"
edition = "2021"
publish = false

[dependencies]
serde_json = "*"
base64 = "*"
reqwest = { version = "*", default-features = false, features = ["blocking"] }
