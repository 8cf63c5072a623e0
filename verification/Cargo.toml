[package]
name = "bitpeer"
version = "0.1.0"
edition = "2021"
publish = false

[dependencies]
anyhow = "1"
bitcoin = "0.29"
rand = "0.8"
socks = "0.3"
