[package]
name = "web_crawler"
version = "0.1.0"
edition = "2021"
publish = false

[dependencies]
anyhow = "1"
clap = { version = "4", features = ["derive"] }
indicatif = "0.17"
parking_lot = "0.12"
rand = "0.8"
regex = "1"
reqwest = { version = "0.12", features = ["blocking"] }
rusqlite = "*"
