[package]
name = "quake_net"
version = "0.1.0"
edition = "2021"
publish = false

[dependencies]
byteorder = "1"
cgmath = "*"
chrono = { version = "0.4", default-features = false }
