[package]
name = "zipper"
version = "0.1.0"
edition = "2021"
publish = false

[dependencies]
clap = { version = "4", features = ["derive"] }
regex-chunker = { version = "*", features = ["async"] }
shlex = "1"
tokio = { version = "1", features = ["io-util", "process", "rt", "rt-multi-thread", "sync"] }
tokio-stream = "0.1"
