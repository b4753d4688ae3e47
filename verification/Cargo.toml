[package]
name = "homework-core"
version = "0.1.0"
edition = "2021"
publish = false

[dependencies]
chrono = "=0.4.45"
regex = "=1.13.1"
url = "=2.5.8"
scraper = "=0.29.0"
serde = { version = "=1.0.229", features = ["derive"] }
serde_json = "=1.0.154"
reqwest = { version = "=0.12.28", features = ["blocking", "json", "cookies"] }
reqwest_cookie_store = "=0.8.2"
tokio = { version = "=1.54.1", features = ["rt-multi-thread", "time", "macros"] }
tokio-tungstenite = { version = "=0.30.0", features = ["native-tls"] }
futures-util = { version = "=0.3.34", features = ["sink"] }
image = { version = "=0.25.10", default-features = false, features = ["png"] }
qrcode = "=0.14.1"
