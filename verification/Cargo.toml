[package]
name = "rsk-keys"
version = "0.1.0"
edition = "2021"
publish = false

[dependencies]
embassy-time = "=0.5.1"
embedded-graphics = "=0.8.2"
