[package]
name = "testevents"
version = "0.1.0"
edition = "2021"
publish = false

[dependencies]
anyhow = "*"
axum = "=0.8.9"
chrono = "=0.4.45"
dotenv = "*"
opentelemetry = "=0.33.0"
opentelemetry-otlp = { version = "=0.33.0", default-features = false, features = ["grpc-tonic", "trace", "tls-ring"] }
opentelemetry_sdk = "=0.33.0"
opentelemetry-semantic-conventions = "*"
serde = { version = "*", features = ["derive"] }
serde_json = "*"
tokio = { version = "*", features = ["full"] }
tonic = "=0.14.6"
