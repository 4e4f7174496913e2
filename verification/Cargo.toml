[package]
name = "voicepeak"
version = "0.1.0"
edition = "2021"
publish = false

[dependencies]
tempfile = "3"
tokio = { version = "1", features = ["fs", "io-util", "process", "rt", "time"] }
tracing = "0.1"
