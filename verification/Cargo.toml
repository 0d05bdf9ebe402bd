[package]
name = "template_expr"
version = "0.1.0"
edition = "2021"
publish = false

[dependencies]
console-subscriber = "0.2"
dashmap = "5"
http = "0.2"
opentelemetry = "0.21"
opentelemetry-prometheus = "0.14"
opentelemetry_sdk = "0.21"
poem = { version = "2", features = ["opentelemetry"] }
prometheus = "0.13"
tokio = { version = "1", features = ["full"] }
tonic = "0.10"
tracing = "0.1"
tracing-subscriber = { version = "0.3", features = ["env-filter", "json"] }
