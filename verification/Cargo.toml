[package]
name = "openrust_core"
version = "0.1.0"
edition = "2021"
publish = false

[dependencies]
sha2 = "=0.11.1"
hex = "=0.4.3"
url = "=2.5.8"
urlencoding = "=2.1.3"
glob = "=0.3.4"
serde_json = "=1.0.154"
unicode-width = "=0.2.3"
regex = "=1.13.1"
base64 = "=0.22.1"
similar = "=2.7.0"
walkdir = "=2.5.0"
serde = { version = "=1.0.229", features = ["derive"] }
reqwest = { version = "=0.12.28", default-features = false, features = ["rustls-tls"] }
pulldown-cmark = { version = "0.12", default-features = false }
syntect = { version = "5", default-features = false, features = ["default-fancy"] }
