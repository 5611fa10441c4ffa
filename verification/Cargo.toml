[package]
name = "voicechat_core"
version = "0.1.0"
edition = "2021"
publish = false

[dependencies]
reqwest = { version = "0.11", default-features = false, features = ["multipart"] }
tokio = { version = "1", features = ["rt-multi-thread", "macros"] }
serde_json = "1"
rodio = "0.17"
cpal = "0.15"
hound = "3.5"
dasp_sample = "0.11"
tempfile = "3"
