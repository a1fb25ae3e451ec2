[package]
name = "site_traversal"
version = "0.1.0"
edition = "2021"
publish = false

[dependencies]
url = "2"
anyhow = "1"
log = "0.4"
serde_json = "1"
tokio = { version = "1", features = ["fs", "time", "sync", "rt"] }
thirtyfour = "0.36"
portpicker = "0.1"
zip-extensions = "*"

[dev-dependencies]
regex = "1"
