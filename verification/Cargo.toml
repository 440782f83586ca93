[package]
name = "surreal_tooling"
version = "0.1.0"
edition = "2021"
publish = false

[dependencies]
hex = "0.4"
semver = "1"
ipnet = "2"
url = "2"
anyhow = "1"
thiserror = "*"
serde = { version = "1", features = ["derive"] }
serde_json = "1"
toml = "*"
clap = "4"
tokio = { version = "1", features = ["full"] }
futures = "0.3"
tracing = "0.1"
tracing-subscriber = { version = "0.3", features = ["env-filter", "json"] }
tracing-appender = "0.2"
syn = { version = "2", features = ["full"] }
quote = "1"
proc-macro2 = "1"
parking_lot = "0.12"
web-time = "1"
cfg-if = "1"
opentelemetry = "*"
opentelemetry_sdk = "*"
opentelemetry-otlp = { version = "*", features = ["grpc-tonic"] }
tracing-opentelemetry = "*"
