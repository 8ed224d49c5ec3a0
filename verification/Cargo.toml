[package]
name = "api_gateway"
version = "0.1.0"
edition = "2021"
publish = false

[dependencies]
chrono = "0.4"
http = "0.2"
url = "2"
actix-web = "4"
jsonwebtoken = "9"
serde = { version = "1", features = ["derive"] }
serde_json = "1"
dotenv = "0.15"
env_logger = "0.11"
listenfd = "1"
deadpool-redis = "*"
redis = "*"
reqwest = { version = "0.11", default-features = false, features = ["stream"] }
tokio = { version = "1", features = ["sync", "rt", "macros"] }
tokio-stream = "0.1"
futures-util = "0.3"
lazy_static = "1"
