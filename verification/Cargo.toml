[package]
name = "pattern_finder"
version = "0.1.0"
edition = "2021"
publish = false

[dependencies]
regex = "1"
walkdir = "2"
serde = { version = "1", features = ["derive"] }
serde_yaml = "0.9"
clap = { version = "4", features = ["derive"] }
tokio = { version = "1", features = ["sync"] }
actix-web = "4"
actix-cors = "*"
async-trait = "0.1"
erased-serde = "*"
