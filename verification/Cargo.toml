[package]
name = "scanmap"
version = "0.1.0"
edition = "2021"

[dependencies]
clap = "2"
serde = { version = "1", features = ["derive"] }
serde_json = "1"
wifiscanner = "*"
