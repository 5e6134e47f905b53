[package]
name = "deploy_pipeline"
version = "0.1.0"
edition = "2021"
publish = false

[dependencies]
anyhow = "1"
dialoguer = "*"
dotenv = "0.15"
prettytable-rs = "*"
serde = { version = "1", features = ["derive"] }
serde_json = "1"
ssh2 = "*"
