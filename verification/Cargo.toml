[package]
name = "collapse"
version = "0.1.0"
edition = "2021"
publish = false

[dependencies]
zip = { version = "=2.6.1", default-features = false, features = ["deflate"] }
sevenz-rust2 = "*"
chrono = { version = "=0.4.45", features = ["serde"] }
uuid = { version = "=1.29.1", features = ["v4"] }
axum = { version = "=0.8.9", features = ["multipart"] }
tokio = { version = "=1.54.1", features = ["rt-multi-thread", "macros", "sync", "fs", "net"] }
tower-http = { version = "=0.6.11", features = ["cors", "fs"] }
clap = { version = "=4.6.7", features = ["derive"] }
serde = { version = "=1.0.229", features = ["derive"] }
serde_json = "=1.0.154"
toml = "=0.8.23"
