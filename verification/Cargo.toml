[package]
name = "technical_accounts"
version = "0.1.0"
edition = "2021"
publish = false

[dependencies]
parity-scale-codec = { version = "3", features = ["derive"] }
sp-arithmetic = "*"
sp-runtime = "*"
frame-support = "*"
frame-system = "*"
