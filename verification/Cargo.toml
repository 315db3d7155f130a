[package]
name = "social_service"
version = "0.1.0"
edition = "2021"
publish = false

[dependencies]
axum = "0.8"
chrono = { version = "0.4", features = ["serde"] }
serde = { version = "1", features = ["derive"] }
serde_json = "1"
sqlx = { version = "0.8", features = ["postgres", "runtime-tokio", "uuid", "chrono", "json", "macros"] }
thiserror = "2"
tower-http = { version = "0.6", features = ["trace"] }
tracing = "0.1"
uuid = { version = "1", features = ["v4", "serde"] }
