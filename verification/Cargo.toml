[package]
name = "link_citation"
version = "0.1.0"
edition = "2021"
publish = false

[dependencies]
serenity = "0.12"
tokio = { version = "1", features = ["rt-multi-thread", "macros"] }
anyhow = "1"
log = "0.4"
env_logger = "0.11"
