[package]
name = "topik"
version = "0.1.0"
edition = "2021"
publish = false

[dependencies]
bytes = "1"
uuid = "1"
thiserror = "2"
tokio = { version = "1", features = ["sync", "rt", "macros"] }
rumqttc = { version = "0.24", default-features = false }
