[package]
name = "squirreldb"
version = "0.1.0"
edition = "2021"

[dependencies]
rmp-serde = "1"
serde = { version = "1", features = ["derive"] }
serde_json = "1"
thiserror = "1"
tokio = { version = "1", features = ["net", "io-util", "sync", "time", "rt"] }
uuid = { version = "1", features = ["v4", "serde"] }
