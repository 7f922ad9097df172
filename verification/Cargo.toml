[package]
name = "starlight_fg"
version = "0.1.0"
edition = "2021"
publish = false

[dependencies]
daggy = "*"
