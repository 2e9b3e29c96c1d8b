[package]
name = "catalog"
version = "0.1.0"
edition = "2021"
publish = false

[dependencies]
chrono = { version = "=0.4.45", default-features = false, features = ["std", "clock", "serde"] }
serde = { version = "=1.0.229", features = ["derive"] }
axum = "=0.8.9"
askama = "=0.16.1"
askama_web = { version = "=0.16.0", features = ["axum-0.8"] }
sqlx = { version = "=0.8.6", default-features = false, features = ["postgres", "runtime-tokio", "chrono", "derive"] }
tracing = "=0.1.44"
