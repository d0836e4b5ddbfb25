[package]
name = "content_crafters"
version = "0.1.0"
edition = "2021"
publish = false

[dependencies]
bson = "2"
chrono = "0.4"
actix-web = "4"
actix-multipart = "0.6"
actix-cors = "0.7"
mongodb = "2"
reqwest = { version = "0.11", default-features = false, features = ["rustls-tls"] }
serde = { version = "1", features = ["derive"] }
serde_json = "1"
futures = "0.3"
tokio = { version = "1", features = ["macros", "rt-multi-thread"] }
clap = { version = "4", features = ["derive", "env"] }
dotenv = "0.15"
env_logger = "0.11"
log = "0.4"
anyhow = "1"
derive_more = "0.99"
