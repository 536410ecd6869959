[package]
name = "qara"
version = "0.1.0"
edition = "2021"
publish = false

[dependencies]
rss = "*"
anyhow = "*"
crossterm = { version = "*", features = ["event-stream"] }
ctrlc = "*"
futures-util = "*"
ratatui = "*"
rayon = "*"
reqwest = { version = "*", default-features = false }
tokio = { version = "*", features = ["full"] }
tracing = "*"
tracing-subscriber = "*"
