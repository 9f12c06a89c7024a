[package]
name = "alliot"
version = "0.1.0"
edition = "2021"
publish = false

[dependencies]
cpal = "0.15"
whisper-rs = "0.15"
