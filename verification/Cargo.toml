[package]
name = "audio_io"
version = "0.1.0"
edition = "2021"
publish = false

[dependencies]
symphonia = "0.5"
hound = "3.5"
audio-blocks = "*"
num = "0.4"
thiserror = "*"
