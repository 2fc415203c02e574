[package]
name = "monsoon"
version = "0.1.0"
edition = "2021"
publish = false

[dependencies]
anitomy = "=0.2.0"
size = "=0.6.0"
scraper = "=0.29.0"
mime_guess = "=2.0.5"
slab = "=0.4.12"
sled = "=0.34.7"
rand = "=0.10.3"
bincode = "=2.0.1"
tokio = { version = "1", features = ["full"] }
tokio-util = { version = "0.7", features = ["io"] }
futures = "0.3"
reqwest = "*"
axum = "0.8"
http = "1"
anyhow = "1"
librqbit = { version = "=9.0.1", default-features = false, features = ["rust-tls"] }
