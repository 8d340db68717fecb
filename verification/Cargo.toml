[package]
name = "summa"
version = "0.1.0"
edition = "2021"
publish = false

[dependencies]
anyhow = "1"
chrono = "0.4"
clap = { version = "4", features = ["derive"] }
crossterm = "0.28"
dirs = "*"
ratatui = "0.29"
reqwest = "0.12"
rstructor = "*"
schemars = "*"
scraper = "*"
serde = { version = "1", features = ["derive"] }
serde_json = "1"
sled = "0.34"
tantivy = "*"
thiserror = "*"
tokio = { version = "1", features = ["full"] }
toml = "*"

[dev-dependencies]
tempfile = "3"
