[package]
name = "munch"
version = "0.1.0"
edition = "2021"
publish = false

[dependencies]
clap = { version = "4", features = ["derive"] }
colog = "*"
log = "0.4"
spin_sleep = "1"
