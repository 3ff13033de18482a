[package]
name = "resource_registry"
version = "0.1.0"
edition = "2021"
publish = false

[dependencies]
cfg-rs = { version = "=1.0.5", features = ["rand"] }
