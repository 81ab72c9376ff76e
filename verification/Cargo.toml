[package]
name = "pr_forest"
version = "0.1.0"
edition = "2021"
publish = false

[dependencies]
jiff = "*"
rocket = "0.5"
serde = { version = "1", features = ["derive"] }
serde_json = "1"
tokio = { version = "1", features = ["full"] }
