[package]
name = "stopwatch"
version = "0.1.0"
edition = "2021"
publish = false

[dependencies]
iced = { version = "*", features = ["tokio"] }
