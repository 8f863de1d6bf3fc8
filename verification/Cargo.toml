[package]
name = "agent_engine"
version = "0.1.0"
edition = "2021"
publish = false

[dependencies]
chrono = "*"
log = "*"
parking_lot = "*"
serde = { version = "*", features = ["derive"] }
tokio = { version = "*", features = ["rt", "time", "macros"] }
uuid = { version = "*", features = ["v4"] }
