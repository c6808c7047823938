[package]
name = "rust_learn"
version = "0.1.0"
edition = "2021"
publish = false

[dependencies]
chrono = { version = "=0.4.45", features = ["serde"] }
uuid = { version = "=1.29.0", features = ["v4"] }
serde = { version = "=1.0.229", features = ["derive"] }
serde_core = "=1.0.229"
thiserror = "=2.0.21"
tokio = { version = "=1.54.1", features = ["rt-multi-thread", "macros", "net"] }
axum = "=0.8.9"
tower-http = { version = "=0.6.11", features = ["trace"] }
tracing = "=0.1.44"
sqlx = { version = "=0.8.6", default-features = false, features = ["mysql", "runtime-tokio", "chrono", "macros"] }
xlsxwriter = "=0.6.1"
