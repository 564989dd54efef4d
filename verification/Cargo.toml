[package]
name = "interceptor"
version = "0.1.0"
edition = "2021"
publish = false

[dependencies]
axum = "0.5"
http = "0.2"
tokio = { version = "1", features = ["full"] }
tower = { version = "0.4", features = ["util"] }
tracing = "0.1"
tracing-subscriber = "0.3"
