[package]
name = "driver_service_integration_tests"
version = "0.1.0"
edition = "2021"
publish = false

[dependencies]
anyhow = "*"
async-nats = "*"
chrono = "*"
dotenv = "*"
futures = "*"
rand = "*"
serde = { version = "*", features = ["derive"] }
serde_json = "*"
tokio = { version = "*", features = ["rt-multi-thread", "sync", "time", "macros"] }
uuid = { version = "*", features = ["v4"] }
