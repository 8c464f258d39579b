[package]
name = "dlrs"
version = "0.1.0"
edition = "2021"
publish = false

[dependencies]
serde_json = "1"
clap = "3"
colored = "2"
futures = "0.3"
regex = "1"
reqwest = { version = "0.11", default-features = false }
tokio = { version = "1", features = ["rt-multi-thread", "macros", "fs", "io-util"] }
