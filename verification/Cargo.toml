[package]
name = "diurn_cli"
version = "0.1.0"
edition = "2021"
publish = false

[dependencies]
anyhow = "1"
clap = { version = "4", features = ["derive"] }
csv = "1"
diurn-mic = "*"
jiff = "0.2"
serde = { version = "1", features = ["derive"] }
serde_json = "1"
ureq = "3"
