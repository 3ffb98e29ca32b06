[package]
name = "clounar"
version = "0.1.0"
edition = "2021"
publish = false

[dependencies]
anyhow = "1"
axum = "0.8"
dirs = "*"
futures = "0.3"
itertools = "*"
llm_json = "*"
serde = { version = "1", features = ["derive"] }
serde_json = "1"
strum = { version = "*", features = ["derive"] }
tokio = { version = "1", features = ["full"] }
tokio-stream = "*"
toml = "*"
tower-http = { version = "*", features = ["cors"] }
tracing = "0.1"
tracing-subscriber = { version = "0.3", features = ["env-filter"] }
uuid = { version = "1", features = ["v4"] }
