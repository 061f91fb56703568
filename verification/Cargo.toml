[package]
name = "camille"
version = "0.1.0"
edition = "2021"
publish = false

[dependencies]
anyhow = "=1.0.104"
mediapipe = "=0.1.0"
nokhwa = { version = "=0.10.11", features = ["input-native"] }
piper-rs = "=0.2.0"
rodio = "=0.23.0"
whisper-cpp-plus = "=0.1.5"
