[package]
name = "short_link"
version = "0.1.0"
edition = "2021"
publish = false

[dependencies]
anyhow = "1"
axum = "0.7"
base64 = "0.22"
bb8-redis = "*"
chrono = "0.4"
serde = { version = "1", features = ["derive"] }
serde_yaml = "0.9"
sha2 = "0.10"
sqlx = { version = "=0.7.4", features = ["runtime-tokio-rustls", "postgres", "chrono"] }
tokio = { version = "1", features = ["full"] }
tracing = "0.1"
