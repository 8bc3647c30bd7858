[package]
name = "nomark"
version = "0.1.0"
edition = "2021"
publish = false

[dependencies]
pulldown-cmark = { version = "*", default-features = false }
serde_yaml = "0.9"
clap = { version = "4", features = ["derive"] }
anyhow = "1"
walkdir = "2"
