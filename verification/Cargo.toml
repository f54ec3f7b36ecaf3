[package]
name = "gitclean"
version = "0.1.0"
edition = "2021"
publish = false

[dependencies]
ignore = "*"
walkdir = "*"
rayon = "*"
clap = { version = "*", features = ["derive"] }
console = "*"
indicatif = "*"
inquire = "*"
anyhow = "*"
