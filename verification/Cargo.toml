[package]
name = "ip_sniffer"
version = "0.1.0"
edition = "2021"
publish = false

[dependencies]
clap = { version = "*", features = ["derive"] }
progress_bar = "*"
