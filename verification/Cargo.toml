[package]
name = "clip_history"
version = "0.1.0"
edition = "2021"
publish = false

[dependencies]
sha2 = "0.10"
url = "2"
serde_json = "1"
scraper = "*"
