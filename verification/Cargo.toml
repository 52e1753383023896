[package]
name = "theta_protocol"
version = "0.1.0"
edition = "2021"
publish = false

[dependencies]
bytes = "=1.12.1"
cobs = "=0.3.0"
futures = "=0.3.34"
postcard = { version = "=1.1.3", default-features = false, features = ["use-std"] }
serde = { version = "=1.0.229", features = ["derive"] }
tokio-util = { version = "=0.7.20", features = ["codec"] }
url = { version = "=2.5.8", features = ["serde"] }
