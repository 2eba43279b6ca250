[package]
name = "monero_consensus"
version = "0.1.0"
edition = "2021"
publish = false

[dependencies]
clap = { version = "4", features = ["derive"] }
dirs = "5"
futures = "0.3"
tokio = { version = "1", features = ["macros", "rt", "rt-multi-thread", "sync"] }
tower = { version = "0.4", features = ["buffer", "util"] }
tracing = "0.1"
tracing-subscriber = "0.3"
