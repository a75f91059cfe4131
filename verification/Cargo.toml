[package]
name = "graph_engine"
version = "0.1.0"
edition = "2021"
publish = false

[dependencies]
rand = "0.8"
tokio = { version = "1", features = ["full"] }
actix = "0.13"
actix-web = "4"
actix-web-actors = "4"
futures = "0.3"
log = "0.4"
once_cell = "1"
scopeguard = "1"
serde = { version = "1", features = ["derive"] }
serde_json = "1"
uuid = { version = "1", features = ["v4"] }
chrono = "0.4"
