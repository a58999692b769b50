[package]
name = "young_agent"
version = "0.1.0"
edition = "2021"
publish = false

[dependencies]
cap-std = "=4.0.3"
command-group = "=5.0.1"
ctrlc = "=3.5.2"
rustix = { version = "=1.1.6", features = ["event", "fs", "process", "thread"] }
serde = { version = "=1.0.229", features = ["derive"] }
serde_json = "=1.0.154"
