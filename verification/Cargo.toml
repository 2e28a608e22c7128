[package]
name = "catlas-api"
version = "0.1.0"
edition = "2021"
publish = false

[dependencies]
chrono = { version = "=0.4.45", features = ["serde"] }
config = { version = "=0.15.27", default-features = false }
diesel = { version = "=2.3.14", features = ["postgres", "r2d2", "serde_json", "chrono"] }
diesel_migrations = "=2.3.2"
diesel-tracing = { version = "=0.4.0", features = ["postgres", "r2d2"] }
dotenvy = "=0.15.7"
openidconnect = "=4.1.0"
opentelemetry = "=0.30.0"
opentelemetry_sdk = { version = "=0.30.0", features = ["rt-tokio"] }
opentelemetry-otlp = { version = "=0.30.0", default-features = false, features = ["trace", "http-proto", "reqwest-client"] }
poem = { version = "=3.1.12", features = ["session"] }
poem-openapi = { version = "=5.1.16", features = ["chrono", "scalar"] }
postgis_diesel = "=2.5.0"
serde = { version = "=1.0.229", features = ["derive"] }
serde_json = "=1.0.154"
tokio = { version = "=1.54.1", features = ["full"] }
tracing = "=0.1.44"
tracing-opentelemetry = "=0.31.0"
tracing-subscriber = { version = "=0.3.23", features = ["env-filter"] }
uuid = { version = "=1.29.0", features = ["v4"] }
