[package]
name = "graphql_ws"
version = "0.1.0"
edition = "2021"
publish = false

[dependencies]
rand = "=0.10.3"
serde = { version = "*", features = ["derive"] }
serde_json = "*"
actix = "*"
actix-web = "*"
actix-web-actors = "*"
actix-rt = "*"
actix-cors = "*"
futures = "*"
tokio = { version = "*", features = ["sync", "time", "rt", "macros"] }
env_logger = "*"
log = "*"
