[package]
name = "news_corpus"
version = "0.1.0"
edition = "2021"
publish = false

[dependencies]
anyhow = "1"
nlprule = "0.6"
rand = "0.8"
regex = "1"
reqwest = { version = "0.11", default-features = false, features = ["blocking", "rustls-tls"] }
scraper = "*"
