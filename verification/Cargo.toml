[package]
name = "opus_stream"
version = "0.1.0"
edition = "2021"
publish = false

[dependencies]
crc-any = "*"

[dev-dependencies]
ogg = "=0.9.2"
