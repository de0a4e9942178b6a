[package]
name = "edek_triage"
version = "0.1.0"
edition = "2021"
publish = false

[dependencies]
hex = "*"
base64 = "*"
clap = { version = "*", features = ["cargo"] }
ron = "*"
serde = { version = "*", features = ["derive"] }
