[package]
name = "shbt-cf"
version = "0.1.0"
edition = "2021"
publish = false

[dependencies]
rug = "1"
tokio = { version = "1", features = ["rt", "rt-multi-thread", "macros", "time"] }
