[package]
name = "sampling_approval"
version = "0.1.0"
edition = "2021"
publish = false

[dependencies]
anyhow = "1"
async-trait = "0.1"
axum = "0.8"
bytes = "1"
futures = "0.3"
rmcp = "*"
serde = { version = "1", features = ["derive"] }
serde_json = "1"
tokio = { version = "1", features = ["sync", "rt", "macros"] }
tokio-stream = { version = "0.1", features = ["sync"] }
tracing = "0.1"
utoipa = "4"
uuid = { version = "1", features = ["v4"] }
