[package]
name = "presence"
version = "0.1.0"
edition = "2021"
publish = false

[dependencies]
serde = { version = "=1.0.229", features = ["derive"] }
serde_json = "=1.0.154"
float_duration = { version = "=0.3.3", default-features = false, features = ["serde"] }
sciter-rs = "=0.5.58"
dirs = "=7.0.0"
lazy_static = "=1.5.1"
