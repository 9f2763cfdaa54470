[package]
name = "tinylibc"
version = "0.1.0"
edition = "2021"
publish = false

[dependencies]
itoa = "1"
ryu = "1"
rustix = { version = "1", features = ["runtime", "stdio"] }
xenia = "0.1"
