[package]
name = "cms_video_recorder"
version = "0.1.0"
edition = "2021"
publish = false

[dependencies]
fluent = "0.16"
serde = { version = "1", features = ["derive"] }
serde_json = "1"
dirs = "5"
