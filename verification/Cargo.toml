[package]
name = "rate_limiter"
version = "0.1.0"
edition = "2021"
publish = false

[dependencies]
axum = "*"
axum-server = "*"
chrono = "*"
tokio = { version = "*", features = ["sync", "macros", "rt-multi-thread"] }
