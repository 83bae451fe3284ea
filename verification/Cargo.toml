[package]
name = "runner_status"
version = "0.1.0"
edition = "2021"
publish = false

[dependencies]
anyhow = "*"
askama_escape = "*"
axum = "*"
chrono = "*"
env_logger = "*"
log = "*"
reqwest = { version = "*", default-features = false, features = ["rustls-tls", "json"] }
serde = { version = "*", features = ["derive"] }
tokio = { version = "*", features = ["macros", "rt-multi-thread", "net", "time"] }
tower-http = { version = "*", features = ["fs"] }
