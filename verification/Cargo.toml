[package]
name = "emissary"
version = "1.0.0"
edition = "2021"
publish = false

[dependencies]
clap = { version = "4", features = ["derive"] }
dirs = "*"
reqwest = { version = "*", features = ["blocking", "json"] }
rust-ini = "*"
serde = { version = "1", features = ["derive"] }
serde_json = "1"
