[package]
name = "chip_8"
version = "0.1.0"
edition = "2021"

[dependencies]
rand = "0.9"
clap = { version = "4", features = ["derive"] }
device_query = "*"
termion = "*"
