[package]
name = "embodi"
version = "0.1.0"
edition = "2021"
publish = false

[dependencies]
uuid = { version = "*", features = ["v4"] }
podman-api = "*"
futures-util = "*"
tokio = { version = "*", features = ["rt", "macros"] }
