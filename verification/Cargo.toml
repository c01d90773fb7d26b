[package]
name = "rss_monitor"
version = "0.1.0"
edition = "2021"
publish = false

[dependencies]
postgres = "*"
reqwest = { version = "*", default-features = false, features = ["blocking"] }
serde = { version = "*", features = ["derive"] }
serde-xml-rs = "*"
serde_yaml = "*"
