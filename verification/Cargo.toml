[package]
name = "matroska"
version = "0.1.0"
edition = "2021"
publish = false

[dependencies]
bitstream-io = "2"
chrono = { version = "0.4", default-features = false }
