[package]
name = "easee"
version = "0.1.0"
edition = "2021"
publish = false

[dependencies]
chrono = "0.4"
serde = { version = "1", features = ["derive"] }
serde_json = "1"
serde_repr = "0.1"
thiserror = "1"
tracing = "0.1"
tungstenite = { version = "0.21", features = ["rustls-tls-webpki-roots"] }
ureq = { version = "2", features = ["json"] }
