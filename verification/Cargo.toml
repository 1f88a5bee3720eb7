[package]
name = "gear-microkit"
version = "0.1.0"
edition = "2021"
publish = false

[dependencies]
poem = { version = "=3.1.12", features = ["opentelemetry", "prometheus", "tokio-metrics"] }
poem-grpc = "=0.5.9"
poem-grpc-build = "=0.5.9"
opentelemetry = "=0.30.0"
opentelemetry_sdk = { version = "=0.30.0", features = ["rt-tokio"] }
opentelemetry-otlp = { version = "=0.30.0", features = ["grpc-tonic"] }
opentelemetry-http = "=0.30.0"
opentelemetry-semantic-conventions = "=0.30.0"
prometheus = "=0.14.0"
tokio = { version = "=1.54.1", features = ["macros", "rt-multi-thread"] }
