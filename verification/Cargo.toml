[package]
name = "msmu"
version = "0.1.0"
edition = "2021"
publish = false

[dependencies]
oauth2 = { version = "=5.0.0", default-features = false }
url = "=2.5.8"
reqwest = { version = "=0.13.5", default-features = false, features = ["blocking", "json"] }
serde = { version = "=1.0.229", features = ["derive"] }
serde_json = "=1.0.151"
