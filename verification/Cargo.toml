[package]
name = "spacegate_kernel"
version = "0.1.0"
edition = "2021"
publish = false

[dependencies]
regex = "=1.13.1"
rand = "=0.8.8"
url = "=2.5.8"
urlencoding = "=2.1.3"
chrono = { version = "=0.4.45", default-features = false, features = ["std", "clock"] }
ipnet = "=2.12.2"
http = "=1.5.0"
serde = { version = "1", features = ["derive"] }
serde_json = "1"
