[package]
name = "undetected_chromedriver"
version = "0.1.0"
edition = "2021"
publish = false

[dependencies]
async-trait = "0.1"
base64 = "0.22"
rand = "0.9"
reqwest = { version = "0.12", default-features = false, features = ["json", "rustls-tls"] }
serde_json = { version = "1", features = ["preserve_order"] }
tempfile = "3"
thirtyfour = { version = "0.36", default-features = false, features = ["reqwest", "rustls-tls"] }
thiserror = "2"
tokio = { version = "1", features = ["time"] }
zip = { version = "7", default-features = false, features = ["deflate"] }
