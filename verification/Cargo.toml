[package]
name = "discarded"
version = "0.1.0"
edition = "2021"
publish = false

[dependencies]
rand = "0.8"
roman = "*"
clap = { version = "4", features = ["derive"] }
regex = "1"
ansi_term = "*"
