[package]
name = "cors_probe"
version = "0.1.0"
edition = "2021"
publish = false

[dependencies]
percent-encoding = "*"
url = "*"
reqwest = { version = "*", default-features = false }
tokio = { version = "*", features = ["rt-multi-thread", "macros", "time"] }
clap = "*"
colored = "*"
