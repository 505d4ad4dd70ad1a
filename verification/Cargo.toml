[package]
name = "modality_ros_hook"
version = "0.1.0"
edition = "2021"
publish = false

[dependencies]
arc-swap = "*"
archery = "*"
auxon-sdk = "*"
cstr = "*"
fxhash = "*"
itertools = "*"
lazy_static = "*"
modality-api = "*"
modality-ingest-client = "*"
rpds = "*"
tokio = { version = "1", features = ["rt", "sync", "time", "net"] }
widestring = "*"
