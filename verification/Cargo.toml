[package]
name = "engine_lab"
version = "0.1.0"
edition = "2021"
publish = false

[dependencies]
rand = "*"
uuid = { version = "1", features = ["v4"] }
