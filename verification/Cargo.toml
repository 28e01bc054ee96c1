[package]
name = "rusher"
version = "0.1.0"
edition = "2021"
publish = false

[dependencies]
chrono = "=0.4.45"
futures = "*"
serde = { version = "=1.0.229", features = ["derive"] }
tokio = { version = "=1.53.2", features = ["rt", "rt-multi-thread", "sync", "time", "macros"] }
tracing = "=0.1.44"
tracing-subscriber = "=0.3.23"
tdigest = "=1.0.1"
