[package]
name = "novel_fetch"
version = "0.1.0"
edition = "2021"
publish = false

[dependencies]
anyhow = "1"
async-trait = "0.1"
base64 = "0.22"
bincode = { version = "2", features = ["serde"] }
chrono = "0.4"
colored = "*"
crossterm = "*"
ctrlc = "3"
epub-builder = "*"
flate2 = "1"
futures = "0.3"
html2text = "*"
indicatif = "*"
memmap2 = "0.9"
moka = { version = "0.12", features = ["sync", "future"] }
once_cell = "1"
regex = "1"
reqwest = { version = "0.12", default-features = false, features = ["blocking"] }
scraper = "*"
serde = { version = "1", features = ["derive"] }
serde_json = "1"
tempfile = "3"
tiny_http = "0.12"
tokio = { version = "1", features = ["full"] }
tracing = "0.1"
tracing-appender = "0.2"
tracing-subscriber = { version = "0.3", features = ["env-filter"] }
url = "2"
visdom = { version = "1", features = ["destroy", "insertion", "text"] }
