[package]
name = "proprio_core"
version = "0.1.0"
edition = "2021"
publish = false

[dependencies]
serde_json = "*"
tokio = { version = "*", features = ["net", "io-util", "rt-multi-thread", "macros"] }
dirs = "*"
