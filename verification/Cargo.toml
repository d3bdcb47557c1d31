[package]
name = "feature_extractor"
version = "0.1.0"
edition = "2021"
publish = false

[dependencies]
wgpu = "*"
image = "*"
pollster = "*"
env_logger = "*"
flume = "*"
rand = "*"
clap = { version = "4", features = ["derive"] }
