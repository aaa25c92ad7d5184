[package]
name = "voyager"
version = "0.1.0"
edition = "2021"
publish = false

[dependencies]
anyhow = "=1.0.104"
async-trait = "=0.1.92"
axum = "=0.6.20"
base64 = "=0.21.7"
chrono = { version = "=0.4.45", features = ["serde"] }
craftping = { version = "=0.4.1", features = ["async-tokio"] }
env_logger = "=0.10.2"
futures = "=0.3.34"
log = "=0.4.34"
rand = "=0.8.8"
regex = "=1.13.1"
reqwest = { version = "=0.11.27", default-features = false, features = ["json", "rustls-tls"] }
sea-orm = { version = "=0.11.3", features = ["sqlx-postgres", "runtime-tokio-rustls", "macros"] }
sea-orm-migration = { version = "=0.11.3", features = ["sqlx-postgres", "runtime-tokio-rustls"] }
serde = { version = "=1.0.229", features = ["derive"] }
serde_json = "=1.0.154"
serenity = { version = "=0.11.7", default-features = false, features = ["builder", "http", "model", "rustls_backend"] }
tokio = { version = "=1.54.1", features = ["full"] }
uuid = { version = "=1.20.0", features = ["serde"] }
