[package]
name = "image_messie"
version = "0.1.0"
edition = "2021"
publish = false

[dependencies]
anyhow = "1"
chrono = "0.4"
clap = { version = "4", features = ["derive"] }
crossterm = "0.29"
kamadak-exif = "0.5"
owo-colors = "4"
ratatui = "0.30"
walkdir = "2"
