[package]
name = "git_ai"
version = "0.1.0"
edition = "2021"
publish = false

[dependencies]
imara-diff = "*"
chrono = "*"
minreq = "*"
serde = { version = "*", features = ["derive"] }
serde_json = "*"
