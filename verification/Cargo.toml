[package]
name = "pdblister"
version = "0.1.0"
edition = "2021"
publish = false

[dependencies]
futures = "*"
tokio = { version = "*", default-features = false, features = ["rt", "fs", "io-util"] }
reqwest = { version = "*", default-features = false }
