[package]
name = "marconio"
version = "0.1.0"
edition = "2021"
publish = false

[dependencies]
minimp3 = "0.5"
reqwest = { version = "0.11", default-features = false, features = ["blocking", "json", "rustls-tls"] }
rodio = "0.17"
serde = { version = "1", features = ["derive"] }
serde_json = "1"
