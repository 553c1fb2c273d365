[package]
name = "netplan"
version = "0.1.0"
edition = "2021"
publish = false

[dependencies]
flatbuffers = "*"
ipnet = { version = "2", features = ["serde"] }
serde = { version = "1", features = ["derive"] }
serde_json = "1"
serde-saphyr = "*"
thiserror = "*"
tokio = { version = "1", features = ["full"] }
clap = { version = "4", features = ["derive"] }
uuid = { version = "1", features = ["v4"] }
mimalloc = "*"
