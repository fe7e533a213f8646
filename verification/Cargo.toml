[package]
name = "nongle"
version = "0.1.0"
edition = "2021"
publish = false

[dependencies]
clap = { version = "4", features = ["derive"] }
cpal = "0.15"
env_logger = "0.11"
log = "0.4"
midir = "0.10"
rodio = "0.19"
