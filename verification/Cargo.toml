[package]
name = "candle_stream"
version = "0.1.0"
edition = "2021"
publish = false

[dependencies]
axum = { version = "0.7", features = ["ws"] }
tokio = { version = "1", features = ["rt-multi-thread", "macros", "net", "time", "process"] }
futures = "0.3"
tower-http = { version = "0.5", features = ["cors"] }
