[package]
name = "bsize"
version = "0.3.0"
edition = "2021"
publish = false

[dependencies]
serde_core = "1"
