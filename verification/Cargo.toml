[package]
name = "mep"
version = "0.1.0"
edition = "2021"
publish = false

[dependencies]
rand = "*"
