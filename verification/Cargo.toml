[package]
name = "autodoc"
version = "0.1.0"
edition = "2021"
publish = false

[dependencies]
serde = { version = "=1.0.229", features = ["derive"] }
serde_yaml = "=0.9.34"
regex = "=1.13.1"
which = "=8.0.6"
walkdir = "=2.5.0"
notify = "=8.2.0"
clap = { version = "=4.6.7", features = ["derive"] }
chrono = "=0.4.45"
zip = "=8.6.0"
tempfile = "=3.27.0"
reqwest = { version = "=0.12.28", default-features = false, features = ["blocking", "rustls-tls"] }
resvg = "=0.48.1"
