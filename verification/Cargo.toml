[package]
name = "knee_scraper"
version = "0.1.0"
edition = "2021"
publish = false

[dependencies]
scraper = "*"
url = "2"
rand = "0.8"
regex = "1"
reqwest = { version = "*", default-features = false }
tokio = { version = "1", features = ["macros", "rt-multi-thread", "time", "fs", "io-util"] }
futures = "0.3"
