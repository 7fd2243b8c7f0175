[package]
name = "btboy"
version = "0.1.0"
edition = "2021"
publish = false

[dependencies]
regex = "=1.13.1"
sha1 = "=0.10.7"
rss = "=2.1.2"
url = "=2.5.8"
serde = { version = "=1.0.229", features = ["derive"] }
serde_json = "=1.0.154"
anyhow = "=1.0.104"
chrono = "=0.4.45"
dotenvy = "=0.15.7"
dptree = "=0.3.0"
teloxide = { version = "=0.13.0", features = ["macros"] }
takecell = "=0.1.1"
tokio = { version = "=1.54.1", features = ["full"] }
reqwest = { version = "=0.11.27", features = ["json"] }
rusqlite = "=0.32.1"
tracing = "=0.1.44"
tracing-appender = "=0.2.5"
tracing-subscriber = { version = "=0.3.23", features = ["env-filter"] }
