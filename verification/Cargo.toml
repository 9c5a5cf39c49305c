[package]
name = "wam_rust"
version = "0.1.0"
edition = "2021"
publish = false

[dependencies]
url = "=2.4.1"
xdg = "2"
tracing = "0.1"
