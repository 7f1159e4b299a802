[package]
name = "tetris"
version = "0.1.0"
edition = "2021"
publish = false

[dependencies]
rand = "0.8"
crossterm = { version = "0.25", features = ["event-stream"] }
futures = "0.3"
futures-timer = "3"
