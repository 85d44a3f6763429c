[package]
name = "accumulator_demo"
version = "0.1.0"
edition = "2021"
publish = false

[dependencies]
multiqueue = "=0.3.2"
uuid = { version = "=1.29.0", features = ["v4"] }
