[package]
name = "flash_rover"
version = "0.1.0"
edition = "2021"
publish = false

[dependencies]
path-clean = "0.1"
jni = { version = "0.19", features = ["invocation"] }
rust-embed = "5"
tempfile = "3"
