[package]
name = "serde_yaml"
version = "0.1.0"
edition = "2021"
publish = false

[dependencies]
serde = "0.9"
yaml-rust = "0.4"
