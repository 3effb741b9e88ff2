[package]
name = "tagcm"
version = "0.1.0"
edition = "2021"
publish = false

[dependencies]
anyhow = "1"
clap = { version = "4", features = ["derive"] }
cli-clipboard = "*"
crossterm = "*"
directories = "*"
flate2 = "1"
ratatui = "*"
regex = "1"
reqwest = { version = "*", default-features = false, features = ["blocking", "rustls-tls"] }
serde_json = "1"
tar = "*"
