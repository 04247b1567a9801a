[package]
name = "mycobot"
version = "0.1.0"
edition = "2021"
publish = false

[dependencies]
byteorder = "1"
serialport = { version = "4", default-features = false }
