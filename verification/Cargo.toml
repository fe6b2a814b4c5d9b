[package]
name = "gaugewright-directory"
version = "0.1.0"
edition = "2021"
publish = false

[dependencies]
sha2 = "0.10"
serde_json = "1"
axum = "0.7"
tokio = { version = "1", features = ["macros", "rt-multi-thread", "net"] }
tracing-subscriber = { version = "0.3", features = ["env-filter"] }
