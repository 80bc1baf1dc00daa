[package]
name = "nodus"
version = "0.1.0"
edition = "2021"
publish = false

[dependencies]
anstream = "*"
anstyle = "*"
anyhow = "*"
clap = { version = "*", features = ["derive"] }
semver = "*"
serde = { version = "*", features = ["derive"] }
serde_json = "*"
tempfile = "*"
walkdir = "*"
