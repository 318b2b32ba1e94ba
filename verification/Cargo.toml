[package]
name = "radrad"
version = "0.1.0"
edition = "2021"
publish = false

[dependencies]
quick-xml = "0.22"
regex = "1"
base64 = "0.13"
m3u8-rs = "1"
eyre = "0.6"
lazy_static = "1"
signal-hook = "0.3"
serde = { version = "1", features = ["derive"] }
actix-web = { version = "3", default-features = false }
reqwest = { version = "0.11", default-features = false, features = ["blocking", "rustls-tls"] }
