[package]
name = "bilibili_transcript"
version = "0.1.0"
edition = "2021"
publish = false

[dependencies]
anyhow = "1"
dirs = "6"
log = "0.4"
regex = "1"
serde_json = "1"
shellexpand = "3"
tokio = { version = "1", features = ["process", "io-util", "rt-multi-thread", "macros", "time"] }
