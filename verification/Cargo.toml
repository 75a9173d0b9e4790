[package]
name = "uplink"
version = "0.1.0"
edition = "2021"
publish = false

[dependencies]
bytes = "=1.12.1"
derive_more = { version = "=2.1.1", features = ["from"] }
flume = "=0.12.0"
log = "=0.4.34"
rumq-core = ">=0.1.0-alpha.1"
rumqttc = { version = "=0.25.1", default-features = false }
serde = { version = "=1.0.229", features = ["derive"] }
serde_json = "=1.0.154"
thiserror = "=2.0.21"
tokio = { version = "=1.54.1", features = ["rt", "rt-multi-thread", "time", "net", "io-util", "macros", "sync", "test-util"] }
tokio-stream = "=0.1.19"
tokio-util = { version = "=0.7.20", features = ["codec", "time"] }
