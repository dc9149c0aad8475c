[package]
name = "ferrisboy"
version = "0.2.0"
edition = "2021"
publish = false

[dependencies]
clap = { version = "4", features = ["derive"] }
env_logger = "*"
log = "0.4"
sdl2 = "*"
