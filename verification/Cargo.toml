[package]
name = "coderlm_server"
version = "0.1.0"
edition = "2021"
publish = false

[dependencies]
similar = "2"
anyhow = "1"
serde = { version = "1", features = ["derive"] }
serde_json = "1"
schemars = "1"
chrono = { version = "0.4", features = ["serde"] }
tempfile = "3"
tracing = "0.1"
uuid = { version = "1", features = ["v4"] }
parking_lot = "0.12"
dashmap = "6"
rmcp = "*"
tokio = { version = "1", features = ["rt", "macros", "time"] }
