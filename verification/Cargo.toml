[package]
name = "autotagger"
version = "0.1.0"
edition = "2021"
publish = false

[dependencies]
base64 = "*"
chrono = "*"
image = "*"
serde = { version = "*", features = ["derive"] }
serde_json = "*"
walkdir = "*"
tungstenite = "*"
tinyfiledialogs = "*"
minify-html = "*"
scraper = "*"
reqwest = { version = "*", default-features = false, features = ["blocking"] }
