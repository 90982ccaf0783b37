[package]
name = "audio_pipeline"
version = "0.1.0"
edition = "2021"
publish = false

[dependencies]
opus = "0.3"
cpal = "0.15"
