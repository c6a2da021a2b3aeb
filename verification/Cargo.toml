[package]
name = "notification-emitter"
version = "0.1.0"
edition = "2021"
publish = false

[dependencies]
futures-channel = "0.3"
futures-util = "0.3"
tokio = { version = "1", features = ["io-std", "io-util", "macros", "rt", "sync"] }
zbus = { version = "5", default-features = false, features = ["tokio"] }
