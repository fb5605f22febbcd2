[package]
name = "helios_core"
version = "0.1.0"
edition = "2021"
publish = false

[dependencies]
chrono = "=0.4.45"
serde = { version = "=1.0.229", features = ["derive"] }
serde_json = "=1.0.151"
tokio = { version = "=1.53.2", features = ["macros", "rt-multi-thread", "net"] }
axum = "=0.8.9"
tower = "=0.5.3"
tower-http = { version = "=0.6.11", features = ["cors"] }
reqwest = { version = "=0.12.28", default-features = false, features = ["json", "rustls-tls"] }
sqlx = { version = "=0.8.6", default-features = false, features = ["postgres", "runtime-tokio-rustls", "chrono"] }
dotenvy = "=0.15.7"
ort = { version = "=2.0.0-rc.13", default-features = false, features = ["std"] }
