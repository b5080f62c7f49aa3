[package]
name = "issue_bridge"
version = "0.1.0"
edition = "2021"
publish = false

[dependencies]
actix-files = "0.6"
actix-web = "4"
anyhow = "1"
clap = { version = "3", features = ["derive"] }
futures = "0.3"
jsonwebtoken = "8"
octocrab = "0.16"
serde = { version = "1", features = ["derive"] }
sqlx = { version = "0.5", default-features = false, features = ["runtime-tokio-rustls", "sqlite"] }
tokio = { version = "1", features = ["macros", "rt-multi-thread"] }
toml = "0.5"
tracing = "0.1"
tracing-subscriber = "0.3"
twilight-cache-inmemory = "0.10"
twilight-gateway = "0.10"
twilight-http = "0.10"
twilight-model = "0.10"
