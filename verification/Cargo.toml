[package]
name = "linkcheck"
version = "0.5.0"
edition = "2021"
publish = false

[dependencies]
url = "=2.5.8"
http = "0.2"
pulldown-cmark = "=0.13.4"
linkify = "=0.10.0"
dunce = "=1.0.5"
reqwest = { version = "=0.12.28", features = ["blocking"] }
futures = "=0.3.34"
serde = { version = "=1.0.229", features = ["derive"] }
serde_json = "=1.0.151"

[dev-dependencies]
tempfile = "=3.27.0"
fs-err = "=3.3.2"
