[package]
name = "ephemeral_chat"
version = "0.1.0"
edition = "2021"
publish = false

[dependencies]
tokio = { version = "*", features = ["full"] }
rand = "*"
axum = { version = "*", features = ["ws"] }
sqlx = { version = "*", default-features = false, features = ["runtime-tokio", "postgres", "uuid", "chrono", "migrate"] }
redis = { version = "*", features = ["tokio-comp"] }
serde = { version = "*", features = ["derive"] }
serde_json = "*"
dotenvy = "*"
log = "*"
env_logger = "*"
futures-util = "*"
chrono = "*"
uuid = { version = "*", features = ["v4"] }
tower-http = { version = "*", features = ["cors"] }
