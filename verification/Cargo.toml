[package]
name = "todo_server"
version = "0.1.0"
edition = "2021"
publish = false

[dependencies]
axum = { version = "0.6", features = ["headers", "multipart"] }
bb8 = "0.8"
chrono = "0.4"
diesel = { version = "2.1", default-features = false, features = ["postgres_backend"] }
diesel-async = { version = "0.4", features = ["postgres", "bb8"] }
dotenvy = "0.15"
jsonwebtoken = "8"
serde = { version = "1", features = ["derive"] }
serde_json = { version = "1", features = ["raw_value"] }
tokio = { version = "1", features = ["full"] }
tower-http = { version = "0.4", features = ["limit"] }
uuid = { version = "1", features = ["v4"] }
