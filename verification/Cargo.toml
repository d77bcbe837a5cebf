[package]
name = "postgres_thread_store"
version = "0.1.0"
edition = "2021"
publish = false

[dependencies]
serde = { version = "1", features = ["derive"] }
serde_json = "1"
sqlx = { version = "0.8", default-features = false, features = ["postgres", "runtime-tokio", "chrono", "json", "migrate"] }
tokio = { version = "1", features = ["sync"] }
chrono = { version = "0.4", features = ["serde"] }
futures = "0.3"
