[package]
name = "chetter_app"
version = "0.1.0"
edition = "2021"
publish = false

[dependencies]
async-trait = "0.1"
axum = "0.6"
getopts = "0.2"
indoc = "=2.0.8"
jsonwebtoken = "=9.3.1"
octocrab = "=0.40.0"
serde = { version = "1", features = ["derive"] }
serde_json = "1"
tokio = { version = "=1.54.1", features = ["full"] }
tokio-util = { version = "0.7", features = ["rt"] }
toml = "=0.8.23"
tracing = "0.1"
tracing-subscriber = { version = "0.3", features = ["env-filter"] }
