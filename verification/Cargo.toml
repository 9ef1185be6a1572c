[package]
name = "imgunpack"
version = "0.1.0"
edition = "2021"
publish = false

[dependencies]
uuid = { version = "*", features = ["v4"] }
async-std = { version = "*", features = ["attributes"] }
anyhow = "*"

[dev-dependencies]
image = "*"
