[package]
name = "url_shortener"
version = "0.1.0"
edition = "2021"
publish = false

[dependencies]
argon2 = { version = "=0.5.3", features = ["std"] }
axum = "=0.8.9"
axum-extra = { version = "=0.10.3", features = ["cookie-private"] }
base64 = "=0.22.1"
chrono = { version = "=0.4.45", features = ["serde"] }
constant_time_eq = "=0.3.1"
dotenvy = "=0.15.7"
serde = { version = "=1.0.229", features = ["derive"] }
serde_json = "=1.0.154"
sqids = "=0.4.2"
sqlx = { version = "=0.8.6", default-features = false, features = ["runtime-tokio", "sqlite", "chrono", "migrate"] }
tokio = { version = "=1.54.1", features = ["full"] }
url = "=2.5.8"
