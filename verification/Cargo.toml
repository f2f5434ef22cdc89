[package]
name = "chat_hub"
version = "0.1.0"
edition = "2021"
publish = false

[dependencies]
actix-cors = "0.7"
actix-multipart = { version = "=0.7.2", default-features = false }
actix-web = { version = "=4.18.1", default-features = false, features = ["macros", "cookies"] }
actix-ws = "=0.3.1"
argon2 = "=0.5.3"
chrono = { version = "=0.4.45", features = ["serde"] }
dashmap = "=6.2.1"
dotenv = "0.15"
env_logger = { version = "0.11", default-features = false }
futures = "0.3"
futures-util = "=0.3.34"
jsonwebtoken = "=9.3.1"
lettre = { version = "0.11", default-features = false, features = ["builder", "smtp-transport", "tokio1", "tokio1-rustls-tls"] }
log = "=0.4.34"
once_cell = "=1.21.4"
rand = "=0.9.5"
rand_core = { version = "=0.6.4", features = ["getrandom"] }
serde = { version = "=1.0.229", features = ["derive"] }
serde_json = "=1.0.154"
sha256 = { version = "=1.6.0", default-features = false }
sqlx = { version = "=0.8.6", default-features = false, features = ["runtime-tokio", "postgres", "uuid", "chrono", "json"] }
tokio = { version = "=1.54.1", features = ["full"] }
uuid = { version = "=1.29.0", features = ["v4", "serde"] }
webrtc = "=0.13.0"
webrtc-ice = "=0.13.0"
