[package]
name = "rift"
version = "0.1.0"
edition = "2021"
publish = false

[dependencies]
anyhow = "=1.0.104"
flume = "=0.12.0"
nucleo-matcher = "=0.3.1"
rust-embed = { version = "=8.13.0", features = ["include-exclude"] }
tokio = { version = "=1.54.1", features = ["rt-multi-thread", "sync", "time", "macros", "fs"] }
tracing = "=0.1.44"
tracing-subscriber = { version = "=0.3.23", features = ["env-filter"] }
