[package]
name = "old_files"
version = "0.1.0"
edition = "2021"
publish = false

[dependencies]
anyhow = "1"
chrono = { version = "0.4", default-features = false, features = ["std"] }
clap = "4"

[dev-dependencies]
tempfile = "3"
