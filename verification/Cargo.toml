[package]
name = "ansinator"
version = "0.1.0"
edition = "2021"
publish = false

[dependencies]
ansi_term = "0.12"
clap = { version = "3.2", features = ["derive"] }
image = "0.24"
terminal_size = "0.2"
