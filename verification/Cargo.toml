[package]
name = "pubsub_broker"
version = "0.1.0"
edition = "2021"
publish = false

[dependencies]
queues = "=1.1.0"
toml = "=0.5.11"
anyhow = "=1.0.104"
tokio = { version = "=1.54.1", features = ["rt", "net", "io-util", "sync", "time", "macros"] }
async-std = "=1.13.2"
clap = { version = "=4.6.7", features = ["derive"] }
chrono = "=0.4.45"
rand = "=0.8.8"
http = "0.2"
bytes = "1"
wasi-experimental-http = "*"
