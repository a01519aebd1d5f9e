[package]
name = "controller_music"
version = "0.1.0"
edition = "2021"
publish = false

[dependencies]
cpal = "*"
fastrand = "*"
hidapi = "*"
raylib = "*"
ringbuf = "*"
tokio = { version = "*", default-features = false, features = ["sync"] }
