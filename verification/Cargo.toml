[package]
name = "kitweb"
version = "0.1.0"
edition = "2021"
publish = false

[dependencies]
base64 = "0.22"
clap = { version = "4", features = ["derive"] }
crossterm = "0.28"
ctrlc = "3"
flate2 = "1"
