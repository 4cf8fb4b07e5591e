[package]
name = "dofus_stream"
version = "0.1.0"
edition = "2021"
publish = false

[dependencies]
env_logger = "0.10"
pcap = "=1.0.0"
serde = { version = "1", features = ["derive"] }
serde_json = "1"
