[package]
name = "kitties"
version = "0.1.0"
edition = "2021"
publish = false

[dependencies]
parity-scale-codec = { version = "=3.7.5", features = ["derive"] }
scale-info = { version = "=2.11.6", features = ["derive"] }
sp-io = "*"
sp-core = "=43.0.0"
sp-runtime = "*"
sp-std = "=14.0.0"
frame-support = "*"
frame-system = "*"
