[package]
name = "the_bus_telemetry"
version = "0.1.0"
edition = "2021"
publish = false

[dependencies]
reqwest = { version = "0.12", default-features = false, features = ["blocking", "json"] }
serde = { version = "1", default-features = false, features = ["std"] }
serde_json = "1"
