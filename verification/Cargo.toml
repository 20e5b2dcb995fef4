[package]
name = "pobsd_server"
version = "0.1.0"
edition = "2021"
publish = false

[dependencies]
ammonia = "*"
anyhow = "1"
axum = "*"
chrono = "*"
clap = "4"
igdb = "*"
libpobsd = "*"
rand = "0.8"
reqwest = { version = "*", default-features = false }
rust-ini = "*"
scraper = "*"
serde = { version = "1", features = ["derive"] }
serde_json = "1"
slug = "*"
tokio = { version = "1", features = ["full"] }
