[package]
name = "recentip"
version = "0.1.0"
edition = "2021"
publish = false

[dependencies]
bytes = "1"
vec1 = "1"
tokio = { version = "1", features = ["full"] }
futures = "0.3"
socket2 = { version = "0.5", features = ["all"] }
tracing = "0.1"
turmoil = "*"
