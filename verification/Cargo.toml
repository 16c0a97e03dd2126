[package]
name = "wabot"
version = "0.1.0"
edition = "2021"
publish = false

[dependencies]
urlencoding = "=2.1.3"
serde = { version = "=1.0.229", features = ["derive"] }
serde_json = "=1.0.151"
ron = "=0.12.2"
chrono = { version = "=0.4.45", features = ["serde"] }
regex = "=1.13.1"
tempfile = "=3.27.0"
reqwest = { version = "=0.12.28", default-features = false, features = ["blocking", "rustls-tls", "json"] }
resvg = "=0.48.1"
usvg = "=0.48.1"
tiny-skia = "=0.12.0"
