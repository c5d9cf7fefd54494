[package]
name = "sitemade"
version = "0.1.0"
edition = "2021"
publish = false

[dependencies]
regex = "1"
scraper = "0.19"
reqwest = { version = "0.11", default-features = false, features = ["blocking"] }
cdns-rs = "*"
chrono = "0.4"
serde = { version = "1", features = ["derive"] }
serde_yaml = "0.9"
serde_json = "1"
mongodb = "2"
bson = "2"
futures-util = "0.3"
tokio = { version = "1", features = ["rt-multi-thread"] }
dotenv = "0.15"
