[package]
name = "neko_rss"
version = "0.1.0"
edition = "2021"
publish = false

[dependencies]
anyhow = "1"
chrono = "0.4"
dotenvy = "*"
feed-rs = "*"
htmd = "*"
regex = "1"
reqwest = "*"
serde = { version = "1", features = ["derive"] }
serde_json = "1"
serenity = "0.12"
sled = "0.34"
tokio = { version = "1", features = ["full"] }
toml = "*"
