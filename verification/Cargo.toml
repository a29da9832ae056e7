[package]
name = "ws_endpoint"
version = "0.1.0"
edition = "2021"
publish = false

[dependencies]
axum = { version = "*", features = ["ws"] }
axum-server = "*"
tokio = { version = "*", features = ["rt-multi-thread", "macros", "sync"] }
