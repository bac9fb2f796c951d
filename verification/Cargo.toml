[package]
name = "sse_bridge"
version = "0.1.0"
edition = "2021"
publish = false

[dependencies]
actix-web = "4"
actix-web-lab = "*"
amqprs = "*"
async-trait = "*"
env_logger = "*"
futures-util = "*"
parking_lot = "*"
rand = "0.8"
tokio = { version = "1", features = ["sync", "time"] }
