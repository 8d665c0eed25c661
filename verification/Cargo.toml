[package]
name = "tally"
version = "0.1.0"
edition = "2021"
publish = false

[dependencies]
sha1_smol = "1"
serde = { version = "1", features = ["derive"] }
serde_json = "1"
ignore = "*"
ratatui = "*"
