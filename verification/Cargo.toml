[package]
name = "jakescript"
version = "0.1.0"
edition = "2021"
publish = false

[dependencies]
ansi_term = "=0.12.1"
utf8-chars = "=3.0.7"
serde = { version = "1", features = ["derive"] }
serde_json = "1"
serde_yaml = "*"
