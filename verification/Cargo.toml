[package]
name = "dtensor"
version = "0.1.0"
edition = "2021"
publish = false

[dependencies]
itertools = "*"
uuid = { version = "*", features = ["v4"] }
wgpu = "0.19"
async-nats = "0.33"
futures-util = "*"
tokio = { version = "*", features = ["rt", "macros"] }
pollster = "*"
