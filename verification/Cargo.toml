[package]
name = "kontrocode"
version = "0.1.0"
edition = "2021"
publish = false

[dependencies]
serde = { version = "=1.0.229", features = ["derive"] }
serde_json = "=1.0.154"
chrono = { version = "=0.4.45", features = ["serde"] }
uuid = { version = "=1.29.0", features = ["v4", "serde"] }
tokio = { version = "=1.54.1", features = ["full"] }
async-trait = "=0.1.92"
futures = "=0.3.34"
parking_lot = "=0.12.5"
toml = "=0.8.23"
tracing = "=0.1.44"
tracing-subscriber = { version = "=0.3.23", features = ["env-filter"] }
thiserror = "=2.0.21"
anyhow = "=1.0.104"
reqwest = { version = "=0.12.28", default-features = false, features = ["json"] }
agent-client-protocol = "=5.0.0"
redis = { version = "0.27", features = ["tokio-comp"] }
