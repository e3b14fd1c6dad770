[package]
name = "chat_relay"
version = "0.1.0"
edition = "2021"
publish = false

[dependencies]
actix = "=0.8.3"
actix-web = { version = "=1.0.9", features = ["ssl"] }
actix-web-actors = "=1.0.4"
chrono = "=0.4.19"
hex = "=0.4.3"
openssl = "=0.10.81"
rand = "=0.7.3"
serde = { version = "=1.0.229", features = ["derive"] }
serde_json = "=1.0.154"
