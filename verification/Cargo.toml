[package]
name = "eventsourcing"
version = "0.1.0"
edition = "2021"
publish = false

[dependencies]
uuid = { version = "1", features = ["v4", "serde"] }
serde = { version = "1", features = ["derive"] }
serde_json = "1"
bson = "2"
chrono = { version = "0.4", features = ["serde"] }
crossbeam-channel = "0.5"
