[package]
name = "dir_kill"
version = "0.1.0"
edition = "2021"
publish = false

[dependencies]
anyhow = "1"
chrono = "0.4"
clap = { version = "4", features = ["derive"] }
crossterm = "0.27"
lazy_static = "1"
ratatui = "0.26"
rayon = "1"
regex = "1"
