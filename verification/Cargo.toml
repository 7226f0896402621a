[package]
name = "jcan"
version = "0.1.0"
edition = "2021"
publish = false

[dependencies]
socketcan = { version = "3", default-features = false }
embedded-can = "0.4"
anyhow = "1"
clap = { version = "4", features = ["derive"] }
