[package]
name = "jpe"
version = "0.1.0"
edition = "2021"
publish = false

[dependencies]
bytes = "1"
serial2 = "*"
serial2-tokio = "*"
tokio = { version = "1", features = ["net", "time", "io-util", "rt", "rt-multi-thread", "macros"] }
