[package]
name = "artifact_keeper"
version = "0.1.0"
edition = "2021"
publish = false

[dependencies]
urlencoding = "2"
serde_json = "1"
chrono = "0.4"
sha2 = "0.10"
serde = { version = "1", features = ["derive"] }
bytes = "1"
uuid = { version = "1", features = ["serde", "v4"] }
axum = "0.7"
tokio = { version = "1", features = ["sync", "rt"] }
futures = "0.3"
tracing = "0.1"
anyhow = "1"
utoipa = { version = "5", features = ["uuid"] }
sqlx = { version = "0.8", default-features = false, features = ["runtime-tokio", "postgres", "uuid", "json", "derive"] }
