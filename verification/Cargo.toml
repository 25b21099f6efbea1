[package]
name = "loempia"
version = "0.1.0"
edition = "2021"
publish = false

[dependencies]
serial = "0.4"
serial-core = "0.4"
serial-unix = "0.4"
svg = "*"
thiserror = "1"
