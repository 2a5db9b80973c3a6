[package]
name = "textra"
version = "0.1.0"
edition = "2021"
publish = false

[dependencies]
anyhow = "*"
chrono = "*"
dirs = "*"
interprocess = "*"
notify = "*"
tempfile = "*"

[dev-dependencies]
regex = "*"
