[package]
name = "chat_router"
version = "0.1.0"
edition = "2021"
publish = false

[dependencies]
base64 = "0.13"
actix = "0.13"
actix-web = "4"
actix-web-actors = "4"
actix-rt = "2"
serde = { version = "1", features = ["derive"] }
serde_json = "1"
serde_repr = "0.1"
diesel = { version = "2", features = ["mysql", "r2d2", "chrono"] }
r2d2 = "0.8"
r2d2_redis = "0.14"
chrono = "0.4"
dotenv = "0.15"
env_logger = "0.11"
log = "0.4"
