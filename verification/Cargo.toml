[package]
name = "nessstretch"
version = "0.1.0"
edition = "2021"
publish = false

[dependencies]
crossbeam-utils = "*"
hound = "*"
rand = "*"
realfft = "*"
rustfft = "*"
