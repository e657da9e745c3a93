[package]
name = "imgrepo"
version = "0.1.0"
edition = "2021"
publish = false

[dependencies]
anyhow = "*"
axum = { version = "*", features = ["multipart"] }
chrono = { version = "*", features = ["serde"] }
clap = { version = "*", features = ["derive"] }
config-file2 = "*"
flexi_logger = { version = "*", features = ["compress"] }
futures = "*"
hex = "*"
home = "*"
image = "*"
log = "*"
rand = "*"
serde = { version = "*", features = ["derive"] }
serde_json = "*"
sha2 = "*"
tokio = { version = "*", features = ["full"] }
tokio-util = { version = "*", features = ["io"] }
tower-http = { version = "*", features = ["cors"] }
uuid = { version = "*", features = ["v4"] }
