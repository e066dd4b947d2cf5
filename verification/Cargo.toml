[package]
name = "framed-serial"
version = "0.1.0"
edition = "2021"
publish = false

[dependencies]
byteorder = "1"
embedded-serial = "*"
serial = "*"
