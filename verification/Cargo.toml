[package]
name = "rp2040_uart"
version = "0.1.0"
edition = "2021"
publish = false

[dependencies]
embedded-time = "*"
nb = "1"
rp2040-pac = "*"
