[package]
name = "renderer"
version = "0.1.0"
edition = "2021"
publish = false

[dependencies]
encoding_rs = "=0.8.44"
serde = { version = "=1.0.229", features = ["derive"] }
serde_json = "=1.0.154"
url = "2"
