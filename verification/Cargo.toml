[package]
name = "yubihsm_channel"
version = "0.1.0"
edition = "2021"
publish = false

[dependencies]
aes = "0.8"
cbc = "0.1"
cmac = "0.7"
subtle = "2"
rand = "0.8"
uuid = { version = "1", features = ["v4"] }
