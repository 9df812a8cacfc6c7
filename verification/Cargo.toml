[package]
name = "diffsquare"
version = "0.1.0"
edition = "2021"
publish = false

[dependencies]
anyhow = "*"
atty = "*"
clap = { version = "*", features = ["derive"] }
indicatif = "*"
malachite = "*"
rayon = "*"
serde = { version = "*", features = ["derive"] }
serde_json = "*"
