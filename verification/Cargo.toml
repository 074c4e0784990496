[package]
name = "beacon_calibrator"
version = "0.1.0"
edition = "2021"
publish = false

[dependencies]
futures = "0.3"
rumqttc = { version = "*", default-features = false }
serde = { version = "1", features = ["derive"] }
serde_json = "1"
tokio = { version = "1", features = ["macros", "rt-multi-thread", "sync"] }
