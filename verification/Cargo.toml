[package]
name = "autoclicker"
version = "0.1.0"
edition = "2021"
publish = false

[dependencies]
async-channel = "2"
clap = { version = "4", features = ["derive"] }
evdev = "0.12"
gtk4 = "0.9"
ksni = "0.3"
tokio = { version = "1", features = ["rt-multi-thread"] }
