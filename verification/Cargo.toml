[package]
name = "anvil_region"
version = "0.1.0"
edition = "2021"
publish = false

[dependencies]
fastnbt = "2"
flate2 = "1"
clap = { version = "4", features = ["derive"] }
image = "*"
indicatif = "*"
regex = "1"
serde = { version = "1", features = ["derive"] }
serde_json = "1"
