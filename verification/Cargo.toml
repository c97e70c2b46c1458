[package]
name = "galdisasm"
version = "0.1.0"
edition = "2021"
publish = false

[dependencies]
clap = "2"
jedec = "*"
log = "*"
simple_logger = "*"
