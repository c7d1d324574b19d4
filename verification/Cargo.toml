[package]
name = "short"
version = "0.1.0"
edition = "2021"
publish = false

[dependencies]
anyhow = "1"
clap = "2"
fs_extra = "1"
serde = { version = "1", features = ["derive"] }
serde_yaml = "0.8"
which = "4"
