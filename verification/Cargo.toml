[package]
name = "llm_tools"
version = "0.1.0"
edition = "2021"
publish = false

[dependencies]
axum = "=0.8.9"
buffa = "=0.9.2"
chrono = "=0.4.45"
connectrpc = "=0.9.1"
futures = "=0.3.34"
http = "=1.5.0"
reqwest = { version = "=0.13.5", default-features = false, features = ["charset", "http2", "json", "rustls"] }
schemars = "=1.2.3"
sea-orm = { version = "=2.0.4", default-features = false, features = ["macros", "sqlx-postgres", "runtime-tokio", "with-json", "with-chrono", "with-uuid", "entity-registry", "schema-sync"] }
serde = { version = "=1.0.229", features = ["derive"] }
serde_json = "=1.0.154"
thiserror = "=2.0.21"
tokio = { version = "=1.54.1", features = ["full"] }
tracing = "=0.1.44"
url = "=2.5.8"
uuid = { version = "=1.29.0", features = ["v4"] }
