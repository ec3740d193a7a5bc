[package]
name = "billing_aggregator"
version = "0.1.0"
edition = "2021"
publish = false

[dependencies]
rand = "0.8"
tokio = { version = "1", features = ["rt", "rt-multi-thread", "macros", "time", "sync"] }
tracing = "0.1"
