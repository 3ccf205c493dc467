[package]
name = "collab_core"
version = "0.1.0"
edition = "2021"
publish = false

[dependencies]
uuid = { version = "*", features = ["v4"] }
actix-web = "*"
actix-cors = "*"
sqlx = { version = "*", default-features = false, features = ["runtime-tokio", "sqlite"] }
serde = { version = "*", features = ["derive"] }
serde_json = "*"
tokio = { version = "*", features = ["time"] }
chrono = "*"
env_logger = "*"
log = "*"
