[package]
name = "dtp"
version = "0.1.0"
edition = "2021"
publish = false

[dependencies]
actix = "0.13"
actix-web = "4"
actix-web-actors = "4"
serde = { version = "1", features = ["derive"] }
serde_json = "1"
shuttle-runtime = "*"
tokio = { version = "1", features = ["macros"] }
tracing = "0.1"
