[package]
name = "knowledge_os"
version = "0.1.0"
edition = "2021"
publish = false

[dependencies]
sha2 = "=0.11.1"
chrono = "=0.4.45"
uuid = { version = "=1.29.0", features = ["v4"] }
scraper = "=0.29.0"
html2text = "=0.17.4"
regex = "=1.13.1"
mailparse = "=0.18.0"
quick-xml = "=0.36.2"
zip = { version = "=9.2.2", default-features = false, features = ["deflate"] }
docx-rs = "=0.4.22"
calamine = "=0.38.0"
csv = "=1.4.0"
serde = { version = "=1.0.229", features = ["derive"] }
serde_json = "=1.0.154"
serde_yaml = "=0.9.34"
toml = "=1.1.8"
strsim = "=0.11.1"
pdf_oxide = "=0.3.78"
walkdir = "=2.5.0"
ignore = "=0.4.34"
notify = "=8.2.1"
thiserror = "=2.0.21"
libloading = "0.8"
reqwest = { version = "0.12", default-features = false, features = ["rustls-tls", "blocking"] }

[dev-dependencies]
tempfile = "=3.27.0"
