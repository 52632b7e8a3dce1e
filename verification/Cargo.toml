[package]
name = "packet_layers"
version = "0.1.0"
edition = "2021"
publish = false

[dependencies]
clap = { version = "*", features = ["derive"] }
serialport = { version = "*", default-features = false }
