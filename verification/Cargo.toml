[package]
name = "fedilinks"
version = "0.1.0"
edition = "2021"
publish = false

[dependencies]
getrandom = { version = "=0.2.17", features = ["js"] }
url = "=2.5.8"
serde = { version = "=1.0.229", features = ["derive"] }
worker = "=0.8.7"
