[package]
name = "hivemqtt"
version = "0.1.0"
edition = "2021"
publish = false

[dependencies]
bytes = "1"
thiserror = "2"
futures = "0.3"
async-channel = "2"
tokio = { version = "1", default-features = false, features = ["sync"] }
