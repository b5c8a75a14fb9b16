[package]
name = "flashmd"
version = "0.1.0"
edition = "2021"
publish = false

[dependencies]
rand = "*"
gtk4 = "*"
gtk4-layer-shell = "*"
