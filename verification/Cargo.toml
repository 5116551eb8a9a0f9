[package]
name = "mp3tag"
version = "0.1.0"
edition = "2021"
publish = false

[dependencies]
anyhow = "*"
base64 = "*"
id3 = "*"
reqwest = { version = "*", default-features = false, features = ["blocking", "json", "rustls-tls"] }
scraper = "*"
serde = { version = "*", features = ["derive"] }
toml = "*"
