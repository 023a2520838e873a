[package]
name = "api_proxy"
version = "0.1.0"
edition = "2021"
publish = false

[dependencies]
axum = { version = "*", features = ["macros"] }
clap = { version = "*", features = ["derive"] }
http = "*"
reqwest = { version = "*", features = ["stream"] }
serde = { version = "*", features = ["derive"] }
tokio = { version = "*", features = ["full"] }
toml = "*"
tower = "*"
tower-http = { version = "*", features = ["cors", "limit", "trace"] }
tracing = "*"
tracing-subscriber = "*"
