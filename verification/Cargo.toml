[package]
name = "owntracks_exporter"
version = "0.1.0"
edition = "2021"
publish = false

[dependencies]
prometheus_exporter = "*"
log = "*"
env_logger = "*"
signal-hook = "*"
reqwest = { version = "*", default-features = false, features = ["blocking"] }
