[package]
name = "school_library"
version = "0.1.0"
edition = "2021"
publish = false

[dependencies]
axum = "=0.6.20"
chrono = { version = "=0.4.45", features = ["serde"] }
color-eyre = "=0.6.5"
dotenvy = "=0.15.7"
serde = { version = "=1.0.229", features = ["derive"] }
sqlx = { version = "=0.7.4", default-features = false, features = ["runtime-tokio", "postgres", "chrono"] }
tokio = { version = "=1.53.2", features = ["macros", "rt-multi-thread"] }
tower-http = { version = "=0.4.4", features = ["cors"] }
tracing = "=0.1.44"
tracing-subscriber = "=0.3.23"
