[package]
name = "file_server"
version = "0.1.0"
edition = "2021"
publish = false

[dependencies]
axum = "0.6"
futures = "0.3"
hyper = "0.14"
tokio = { version = "1", features = ["fs", "io-util", "macros", "net", "rt-multi-thread"] }
