[package]
name = "fastcdc"
version = "0.1.0"
edition = "2021"
publish = false

[dependencies]
tokio = { version = "1", features = ["rt", "io-util", "macros", "fs"] }
tokio-stream = "0.1"
async-stream = "0.3"
futures = "0.3"
