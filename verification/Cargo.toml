[package]
name = "chainsawman_api"
version = "0.1.0"
edition = "2021"
publish = false

[dependencies]
scraper = "=0.29.0"
regex = "=1.13.1"
reqwest = { version = "=0.11.27", default-features = false, features = ["rustls-tls"] }
tokio = { version = "=1.54.1", features = ["full"] }
clap = { version = "=4.6.7", features = ["derive"] }
dotenvy = "=0.15.7"
axum = "=0.6.20"
async-graphql = "=5.0.10"
async-graphql-axum = "=5.0.10"
tracing = "=0.1.44"
tracing-subscriber = "=0.3.23"
