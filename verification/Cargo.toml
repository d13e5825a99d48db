[package]
name = "guppy"
version = "0.1.0"
edition = "2021"
publish = false

[dependencies]
regex = "1"
serde = { version = "1", features = ["derive"] }
serde_json = "1"
dorsal = "*"
actix-web = "4"
actix-files = "0.6"
actix-cors = "0.7"
askama = "0.12"
awc = "3"
dotenv = "0.15"
env_logger = "0.11"
