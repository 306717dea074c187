[package]
name = "shopping_apis"
version = "0.1.0"
edition = "2021"
publish = false

[dependencies]
base64 = "0.22"
sha2 = "0.10"
rand = "0.9"
serde = { version = "1", features = ["derive"] }
serde_json = "1"
scraper = "*"
uuid = { version = "1", features = ["v4"] }
keyring = "*"
thiserror = "2"
url = "2"
