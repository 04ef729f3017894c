[package]
name = "pallet_registry"
version = "0.1.0"
edition = "2021"
publish = false

[dependencies]
sp-runtime = "*"
frame-support = "*"
frame-system = "*"
