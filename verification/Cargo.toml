[package]
name = "pty_sessions"
version = "0.1.0"
edition = "2021"
publish = false

[dependencies]
portable-pty = "*"
tokio = { version = "1", default-features = false, features = ["sync"] }
uuid = { version = "1", features = ["v4"] }
