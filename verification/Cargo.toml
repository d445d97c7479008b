[package]
name = "badgers"
version = "0.1.0"
edition = "2021"
publish = false

[dependencies]
indoc = "=2.0.8"
walkdir = "=2.5.0"

[dev-dependencies]
regex = "1"
