[package]
name = "xgrid"
version = "0.1.0"
edition = "2021"
publish = false

[dependencies]
bytemuck = { version = "1", features = ["derive"] }
cfg-if = "1"
env_logger = { version = "0.10", default-features = false }
log = "0.4"
pollster = "0.3"
