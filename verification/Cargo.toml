[package]
name = "rnemu"
version = "0.1.0"
edition = "2021"
publish = false

[dependencies]
chrono = "*"
clap = { version = "4", features = ["derive"] }
colored = "*"
lazy_static = "*"
nom = "7"
num-format = "*"
rustyline = "*"
spin = "*"
