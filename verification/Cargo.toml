[package]
name = "docsynth"
version = "0.1.0"
edition = "2021"
publish = false

[dependencies]
rand = "0.8"
serde_json = { version = "1", features = ["preserve_order"] }
