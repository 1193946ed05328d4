[package]
name = "myblog"
version = "0.1.0"
edition = "2021"
publish = false

[dependencies]
bson = "*"
serde = { version = "*", features = ["derive"] }
serde_yaml = "*"
actix-web = "*"
log = "*"
env_logger = "*"
chrono = "*"
thiserror = "*"
anyhow = "*"
