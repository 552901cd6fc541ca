[package]
name = "imagine_jobs"
version = "0.1.0"
edition = "2021"
publish = false

[dependencies]
actix-files = "0.6"
actix-web = "4"
anyhow = "1"
chrono = "0.4"
dotenv = "0.15"
env_logger = "0.11"
futures-util = "0.3"
log = "0.4"
once_cell = "1"
rand = "0.9"
reqwest = { version = "0.12", default-features = false, features = ["json"] }
rolling-file = "0.2"
serde = { version = "1", features = ["derive"] }
serde_json = "1"
thiserror = "1"
tokio = { version = "1", features = ["full"] }
tokio-tungstenite = "*"
uuid = { version = "1", features = ["v4"] }
