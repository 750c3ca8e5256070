[package]
name = "completion_relay"
version = "0.1.0"
edition = "2021"
publish = false

[dependencies]
serde = { version = "1", features = ["derive"] }
serde_json = "1"
actix-web = "4"
awc = "3"
futures = "0.3"
async-stream = "0.3"
