[package]
name = "game_of_life"
version = "0.1.0"
edition = "2021"
publish = false

[dependencies]
clap = { version = "4", features = ["derive"] }
clipboard = "0.5"
miniquad = "0.3"
rand = "0.8"
rgb = "0.8"
