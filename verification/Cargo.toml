[package]
name = "kuhn_poker"
version = "0.1.0"
edition = "2021"
publish = false

[dependencies]
rand = "0.9"
inquire = "0.7"
serde = { version = "1", features = ["derive"] }
serde_json = "1"
