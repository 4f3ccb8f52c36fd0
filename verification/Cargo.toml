[package]
name = "dog_walking"
version = "0.1.0"
edition = "2021"
publish = false

[dependencies]
chrono = "0.4"
mongodb = "3"
serde = { version = "1", features = ["derive"] }
futures-util = "0.3"
actix-web = "4"
