[package]
name = "newsroom"
version = "0.1.0"
edition = "2021"
publish = false

[dependencies]
zip = "*"
uuid = { version = "*", features = ["v3"] }
chrono = "*"
serde = { version = "*", features = ["derive"] }
serde_json = "*"
