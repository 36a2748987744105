[package]
name = "aktor"
version = "0.1.0"
edition = "2021"
publish = false

[dependencies]
tokio = { version = "1", features = ["sync", "time", "rt", "rt-multi-thread", "macros"] }
async-trait = "0.1"
