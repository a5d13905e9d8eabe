[package]
name = "mu_telnet"
version = "0.1.0"
edition = "2021"
publish = false

[dependencies]
bytes = "*"
telnet-codec = "*"
