[package]
name = "thermal_printer"
version = "0.1.0"
edition = "2021"
publish = false

[dependencies]
anyhow = "1"
bitvec = "1"
chrono = "0.4"
clap = { version = "4", features = ["derive"] }
fontdue = "0.7"
image = { version = "0.24", default-features = false, features = ["png", "jpeg"] }
serial = "0.4"
