[package]
name = "aksum"
version = "0.1.0"
edition = "2021"
publish = false

[dependencies]
anyhow = "1"
clap = { version = "4", features = ["derive"] }
convert_case = "*"
minijinja = "2"
rust-embed = "8"
serde = { version = "1", features = ["derive"] }
