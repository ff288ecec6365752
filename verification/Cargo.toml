[package]
name = "publica_fides"
version = "0.1.0"
edition = "2021"
publish = false

[dependencies]
substrate-fixed = "=0.6.0"
frame-support = "*"
frame-system = "*"
parity-scale-codec = { version = "3", features = ["derive"] }
scale-info = { version = "2", features = ["derive"] }
