[package]
name = "custom_backend"
version = "0.1.0"
edition = "2021"
publish = false

[dependencies]
axum = "=0.8.9"
axum-extra = { version = "=0.10.3", features = ["query"] }
axum-server = { version = "=0.7.3", features = ["tls-rustls"] }
bytes = "=1.12.1"
chrono = { version = "=0.4.45", features = ["serde"] }
futures-util = "=0.3.34"
mysql = { version = "=28.0.4", features = ["chrono"] }
mysql_common = { version = "=0.37.3", features = ["chrono"] }
serde = { version = "=1.0.229", features = ["derive"] }
tokio = { version = "=1.54.1", features = ["full"] }
tower-http = { version = "=0.6.11", features = ["compression-gzip"] }
tracing = "=0.1.44"
tracing-subscriber = { version = "=0.3.23", features = ["env-filter"] }
ts-rs = { version = "=12.0.1", features = ["chrono-impl"] }
vite-rs = "=0.2.1"
vite-rs-axum-0-8 = "=0.2.1"
