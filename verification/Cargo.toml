[package]
name = "chungustrator"
version = "0.1.0"
edition = "2021"
publish = false

[dependencies]
axum = "*"
bollard = "*"
dotenv = "*"
serde = { version = "*", features = ["derive"] }
thiserror = "*"
tokio = { version = "*", features = ["full"] }
tokio-stream = "*"
tonic = "*"
tracing = "*"
tracing-subscriber = "*"
