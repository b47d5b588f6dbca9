[package]
name = "rsu"
version = "0.1.0"
edition = "2021"
publish = false

[dependencies]
async-std = "1"
bincode = "1.3"
env_logger = { version = "0.9", default-features = false }
futures = "0.3"
libloading = "0.8"
linked-hash-map = "0.5"
log = "0.4"
percent-encoding = "2"
reqwest = { version = "0.11", default-features = false, features = ["json"] }
serde = { version = "1", features = ["derive"] }
serde_json = "1"
tide = "0.16"
tokio = { version = "1", features = ["rt-multi-thread", "macros", "time"] }
yaml-rust = "0.4"
zenoh = "0.5.0-beta.9"
