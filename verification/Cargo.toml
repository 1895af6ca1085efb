[package]
name = "bytepump"
version = "0.1.0"
edition = "2021"
publish = false

[dependencies]
tokio = { version = "1", features = ["io-util"] }
futures-io = "0.3"
ufmt = "0.2"
