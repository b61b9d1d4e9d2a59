[package]
name = "kvs"
version = "0.1.0"
edition = "2021"
publish = false

[dependencies]
sled = "0.34"
serde = { version = "1", features = ["derive"] }
serde_json = "1"
clap = { version = "4", features = ["derive"] }
failure = "0.1"

[dev-dependencies]
tempfile = "3"
