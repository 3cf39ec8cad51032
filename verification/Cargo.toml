[package]
name = "streamer_template"
version = "0.1.0"
edition = "2021"
publish = false

[dependencies]
anyhow = "1"
axum = { version = "0.8", features = ["tracing", "ws"] }
bytes = "1"
clap = { version = "4", features = ["derive"] }
fastrand = "2"
futures = "0.3"
hound = "3"
init-tracing-opentelemetry = { version = "0.19", features = ["otlp", "tracing_subscriber_ext"] }
metrics = "0.24"
metrics-exporter-prometheus = { version = "0.16", default-features = false }
opentelemetry = "0.23"
opentelemetry-otlp = "0.16"
opentelemetry-semantic-conventions = "0.15"
opentelemetry_sdk = { version = "0.23", features = ["rt-tokio"] }
quanta = "0.12"
rubato = "0.16"
serde = { version = "1", features = ["derive"] }
serde_json = "1"
tokio = { version = "1", features = ["full"] }
tokio-metrics = { version = "0.4", features = ["rt"] }
tokio-stream = "0.1"
tokio-tungstenite = "0.26"
tracing = "0.1"
tracing-opentelemetry = "0.24"
tracing-subscriber = { version = "0.3", features = ["env-filter"] }
