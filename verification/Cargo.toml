[package]
name = "agile_inc"
version = "0.1.0"
edition = "2021"
publish = false

[dependencies]
serde = { version = "1", features = ["derive"] }
serde_json = "1"
chrono = "0.4"
uuid = { version = "1", features = ["v4"] }
thiserror = "1"
toml = "0.8"
tokio = { version = "1", features = ["rt", "rt-multi-thread", "macros", "net", "time", "sync"] }
axum = "0.7"
redis = "0.25"
rumqttc = { version = "0.24", default-features = false }
reqwest = { version = "0.12", default-features = false, features = ["blocking", "json"] }
