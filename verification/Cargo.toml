[package]
name = "iciaws-cli"
version = "0.1.0"
edition = "2021"
publish = false

[dependencies]
anyhow = "1"
chrono = "0.4"
dialoguer = "0.11"
indicatif = "0.17"
nanoid = "0.4"
regex = "1"
