[package]
name = "projector"
version = "0.1.0"
edition = "2021"
publish = false

[dependencies]
anyhow = "1"
futures = "0.3"
tokio = { version = "1", features = ["sync", "rt", "rt-multi-thread", "macros", "time"] }
