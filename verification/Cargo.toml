[package]
name = "nats_tui"
version = "0.1.0"
edition = "2021"
publish = false

[dependencies]
async-nats = "*"
clap = { version = "4", features = ["derive"] }
crossterm = { version = "0.27", features = ["event-stream"] }
futures = "0.3"
ratatui = "0.27"
serde_json = "1"
tokio = { version = "1", features = ["macros", "rt-multi-thread", "sync", "time"] }
tokio-util = "0.7"
