[package]
name = "rss_actions"
version = "0.1.0"
edition = "2021"
publish = false

[dependencies]
anyhow = "1"
chrono = "0.4"
directories = "*"
reqwest = { version = "0.11", features = ["blocking"] }
rss = "2"
rusqlite = { version = "*", features = ["bundled"] }
serde = { version = "1", features = ["derive"] }
structopt = "0.3"
toml = "*"
url = "2"
