[package]
name = "streamvault"
version = "0.1.0"
edition = "2021"
publish = false

[dependencies]
dirs = "*"
regex = "1"
scraper = "*"
url = "2"
unicode-normalization = "0.1"
uuid = { version = "1", features = ["v4"] }
serde = { version = "1", features = ["derive"] }
serde_json = "1"
tokio = { version = "1", features = ["rt-multi-thread", "macros", "process", "io-util", "sync", "time", "fs", "net"] }
reqwest = { version = "0.12", default-features = false, features = ["json", "cookies", "rustls-tls"] }
async-trait = "0.1"
which = "*"
