[package]
name = "qubitum_protocol"
version = "0.1.0"
edition = "2021"
publish = false

[dependencies]
parity-scale-codec = { version = "=3.7.5", default-features = false, features = ["derive", "std"] }
scale-info = { version = "=2.11.6", default-features = false, features = ["derive", "std"] }
sp-weights = { version = "*", default-features = false }
