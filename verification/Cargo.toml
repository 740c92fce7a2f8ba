[package]
name = "clickhouse_ingestor"
version = "0.1.0"
edition = "2021"
publish = false

[dependencies]
prost = "0.13"
opentelemetry-proto = { version = "0.29", default-features = false, features = ["gen-tonic-messages", "logs"] }
hex = "0.4"
sha2 = "0.10"
serde_json = "1"
urlencoding = "2"
serde = { version = "1", features = ["derive"] }
tokio = { version = "1", features = ["rt-multi-thread", "macros", "time", "net", "sync", "signal"] }
reqwest = { version = "0.12", default-features = false }
axum = "0.8"
clap = { version = "4", features = ["derive"] }
anyhow = "1"
tracing = "0.1"
tracing-subscriber = { version = "0.3", features = ["env-filter"] }
prometheus-client = "0.23"
metrics-exporter-prometheus = { version = "0.17", default-features = false }
chrono = { version = "0.4", default-features = false, features = ["clock"] }
