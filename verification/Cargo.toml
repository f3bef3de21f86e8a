[package]
name = "rustdesk_server_pro"
version = "1.0.0"
edition = "2021"
publish = false

[dependencies]
anyhow = "=1.0.104"
axum = "=0.6.20"
base64 = "=0.21.7"
bcrypt = "=0.15.1"
chrono = { version = "=0.4.45", features = ["serde"] }
clap = "=2.34.0"
flexi_logger = "=0.27.4"
jsonwebtoken = "=9.3.1"
log = "=0.4.35"
serde = { version = "=1.0.229", features = ["derive"] }
serde_json = { version = "=1.0.154", features = ["preserve_order"] }
sodiumoxide = "=0.2.7"
sqlx = { version = "=0.7.4", default-features = false, features = ["runtime-tokio", "sqlite"] }
thiserror = "=1.0.69"
tokio = { version = "=1.54.1", features = ["full"] }
tower-http = { version = "=0.4.4", features = ["cors"] }
uuid = { version = "=1.29.0", features = ["v4"] }
