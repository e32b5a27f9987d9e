[package]
name = "anthropic_completions"
version = "0.1.0"
edition = "2021"
publish = false

[dependencies]
serde_json = "1"
reqwest = { version = "0.12", default-features = false, features = ["json", "stream"] }
tokio = { version = "1", features = ["time", "sync", "rt"] }
futures = "0.3"
eventsource-stream = "0.2"
bytes = "1"
